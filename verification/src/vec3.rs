//! Exact 3-vectors with integer coordinates, and the handful of vector
//! operations the tangent solver needs: dot product, cross product, scaling
//! and subtraction. The mathematical model of a vector is a triple of
//! unbounded integers; every operation's result is pinned exactly by its
//! contract, and preconditions only rule out machine overflow.

use vstd::prelude::*;

verus! {

/// A point or direction in 3-space with exact integer coordinates.
#[derive(Copy, Clone, Debug, PartialEq, Eq, Structural)]
pub struct Vect3 {
    pub x: i128,
    pub y: i128,
    pub z: i128,
}

/// The mathematical content of a vector: its coordinate triple.
pub open spec fn model3(v: Vect3) -> (int, int, int) {
    (v.x as int, v.y as int, v.z as int)
}

/// Dot product of two coordinate triples.
pub open spec fn dot3(a: (int, int, int), b: (int, int, int)) -> int {
    a.0 * b.0 + a.1 * b.1 + a.2 * b.2
}

/// Cross product of two coordinate triples.
pub open spec fn cross3(a: (int, int, int), b: (int, int, int)) -> (int, int, int) {
    (a.1 * b.2 - a.2 * b.1, a.2 * b.0 - a.0 * b.2, a.0 * b.1 - a.1 * b.0)
}

/// Componentwise sum.
pub open spec fn add3(a: (int, int, int), b: (int, int, int)) -> (int, int, int) {
    (a.0 + b.0, a.1 + b.1, a.2 + b.2)
}

/// Componentwise difference.
pub open spec fn sub3(a: (int, int, int), b: (int, int, int)) -> (int, int, int) {
    (a.0 - b.0, a.1 - b.1, a.2 - b.2)
}

/// Scaling by an integer factor.
pub open spec fn scale3(k: int, a: (int, int, int)) -> (int, int, int) {
    (k * a.0, k * a.1, k * a.2)
}

/// All three coordinates of a vector lie within `bound` in absolute value.
pub open spec fn bounded3(v: Vect3, bound: int) -> bool {
    &&& -bound <= v.x <= bound
    &&& -bound <= v.y <= bound
    &&& -bound <= v.z <= bound
}

/// All three components of a coordinate triple lie within `bound` in
/// absolute value.
pub open spec fn boundedt(a: (int, int, int), bound: int) -> bool {
    &&& -bound <= a.0 <= bound
    &&& -bound <= a.1 <= bound
    &&& -bound <= a.2 <= bound
}

/// The product of two bounded integers is bounded by the product of the
/// bounds.
pub proof fn lemma_mul_bound(x: int, y: int, bx: int, by: int) by (nonlinear_arith)
    requires
        -bx <= x <= bx,
        -by <= y <= by,
    ensures
        -(bx * by) <= x * y <= bx * by,
{
}

/// A dot product of triples bounded by `ba` and `bb` is bounded by
/// `3 * ba * bb`.
pub proof fn lemma_dot3_bound(a: (int, int, int), b: (int, int, int), ba: int, bb: int) by (nonlinear_arith)
    requires
        boundedt(a, ba),
        boundedt(b, bb),
    ensures
        -(3 * (ba * bb)) <= dot3(a, b) <= 3 * (ba * bb),
{
}

/// Each component of a cross product of triples bounded by `ba` and `bb` is
/// bounded by `2 * ba * bb`.
pub proof fn lemma_cross3_bound(a: (int, int, int), b: (int, int, int), ba: int, bb: int) by (nonlinear_arith)
    requires
        boundedt(a, ba),
        boundedt(b, bb),
    ensures
        boundedt(cross3(a, b), 2 * (ba * bb)),
{
}

impl Vect3 {
    /// Build a vector from its three coordinates.
    pub fn new(x: i128, y: i128, z: i128) -> (r: Vect3)
        ensures
            r == (Vect3 { x, y, z }),
    {
        Vect3 { x, y, z }
    }

    /// Exact dot product. The bound on the inputs only keeps the three
    /// products and their sum inside the machine-integer range.
    pub fn dot(&self, other: &Vect3) -> (r: i128)
        requires
            bounded3(*self, 1_000_000_000_000_000),
            bounded3(*other, 1_000_000_000_000_000),
        ensures
            r == dot3(model3(*self), model3(*other)),
    {
        proof {
            lemma_mul_bound(self.x as int, other.x as int, 1_000_000_000_000_000, 1_000_000_000_000_000);
            lemma_mul_bound(self.y as int, other.y as int, 1_000_000_000_000_000, 1_000_000_000_000_000);
            lemma_mul_bound(self.z as int, other.z as int, 1_000_000_000_000_000, 1_000_000_000_000_000);
        }
        self.x * other.x + self.y * other.y + self.z * other.z
    }

    /// Exact cross product. The bound on the inputs only keeps the component
    /// products inside the machine-integer range.
    pub fn cross(&self, other: &Vect3) -> (r: Vect3)
        requires
            bounded3(*self, 1_000_000_000_000_000),
            bounded3(*other, 1_000_000_000_000_000),
        ensures
            model3(r) == cross3(model3(*self), model3(*other)),
    {
        proof {
            lemma_mul_bound(self.y as int, other.z as int, 1_000_000_000_000_000, 1_000_000_000_000_000);
            lemma_mul_bound(self.z as int, other.y as int, 1_000_000_000_000_000, 1_000_000_000_000_000);
            lemma_mul_bound(self.z as int, other.x as int, 1_000_000_000_000_000, 1_000_000_000_000_000);
            lemma_mul_bound(self.x as int, other.z as int, 1_000_000_000_000_000, 1_000_000_000_000_000);
            lemma_mul_bound(self.x as int, other.y as int, 1_000_000_000_000_000, 1_000_000_000_000_000);
            lemma_mul_bound(self.y as int, other.x as int, 1_000_000_000_000_000, 1_000_000_000_000_000);
        }
        Vect3 {
            x: self.y * other.z - self.z * other.y,
            y: self.z * other.x - self.x * other.z,
            z: self.x * other.y - self.y * other.x,
        }
    }

    /// Exact scaling by an integer factor.
    pub fn scale(&self, k: i128) -> (r: Vect3)
        requires
            bounded3(*self, 1_000_000_000_000_000),
            -1_000_000_000_000_000_000 <= k <= 1_000_000_000_000_000_000,
        ensures
            model3(r) == scale3(k as int, model3(*self)),
    {
        proof {
            lemma_mul_bound(k as int, self.x as int, 1_000_000_000_000_000_000, 1_000_000_000_000_000);
            lemma_mul_bound(k as int, self.y as int, 1_000_000_000_000_000_000, 1_000_000_000_000_000);
            lemma_mul_bound(k as int, self.z as int, 1_000_000_000_000_000_000, 1_000_000_000_000_000);
        }
        Vect3 { x: k * self.x, y: k * self.y, z: k * self.z }
    }

    /// Exact componentwise difference.
    pub fn sub(&self, other: &Vect3) -> (r: Vect3)
        requires
            bounded3(*self, 50_000_000_000_000_000_000_000_000_000_000_000),
            bounded3(*other, 50_000_000_000_000_000_000_000_000_000_000_000),
        ensures
            model3(r) == sub3(model3(*self), model3(*other)),
    {
        Vect3 { x: self.x - other.x, y: self.y - other.y, z: self.z - other.z }
    }
}

} // verus!

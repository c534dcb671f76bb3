//! The plane and ray value types of the kernel, thin owners of the tangent
//! pipeline. A plane is an origin point plus two spanning directions; the
//! algorithm requires (but does not enforce) that the directions are
//! linearly independent, or the derived normal is degenerate.

use vstd::prelude::*;

use crate::quadratic::Root;
use crate::quadratic::resolve_quad;
use crate::tangent::TangentPoint;
use crate::tangent::coeff_a;
use crate::tangent::coeff_b;
use crate::tangent::coeff_c;
use crate::tangent::spec_u0;
use crate::tangent::spec_u1;
use crate::tangent::sphere_roots;
use crate::tangent::tangents_sphere_full;
use crate::tangent::tp_matches;
use crate::vec3::Vect3;
use crate::vec3::bounded3;
use crate::vec3::boundedt;
use crate::vec3::lemma_dot3_bound;
use crate::vec3::lemma_mul_bound;
use crate::vec3::model3;

verus! {

/// A plane given by an origin point and two spanning directions.
#[derive(Copy, Clone, Debug, PartialEq, Eq, Structural)]
pub struct Plane {
    pub origin: Vect3,
    pub dir1: Vect3,
    pub dir2: Vect3,
}

impl Plane {
    /// Build a plane from the nine coordinates of its origin and its two
    /// spanning directions.
    pub fn new(x: i128, y: i128, z: i128, x1: i128, y1: i128, z1: i128, x2: i128, y2: i128, z2: i128) -> (p: Plane)
        ensures
            p.origin == (Vect3 { x, y, z }),
            p.dir1 == (Vect3 { x: x1, y: y1, z: z1 }),
            p.dir2 == (Vect3 { x: x2, y: y2, z: z2 }),
    {
        Plane {
            origin: Vect3::new(x, y, z),
            dir1: Vect3::new(x1, y1, z1),
            dir2: Vect3::new(x2, y2, z2),
        }
    }

    /// The exact tangent points of this plane with the sphere of radius
    /// `radius` centered at the coordinate origin: exactly
    /// `tangents_sphere_full` on the plane's own origin and directions.
    pub fn tangents(&self, radius: i128) -> (res: Vec<TangentPoint>)
        requires
            bounded3(self.origin, 10_000),
            bounded3(self.dir1, 10_000),
            bounded3(self.dir2, 10_000),
            -10_000 <= radius <= 10_000,
            boundedt(spec_u0(model3(self.origin), model3(self.dir1), model3(self.dir2)), 10_000),
            boundedt(spec_u1(model3(self.origin), model3(self.dir1), model3(self.dir2)), 10_000),
            -100_000_000_000 <= coeff_a(
                model3(self.origin),
                spec_u0(model3(self.origin), model3(self.dir1), model3(self.dir2)),
                spec_u1(model3(self.origin), model3(self.dir1), model3(self.dir2)),
                radius as int,
            ) <= 100_000_000_000,
            -100_000_000_000 <= coeff_b(
                model3(self.origin),
                spec_u0(model3(self.origin), model3(self.dir1), model3(self.dir2)),
                spec_u1(model3(self.origin), model3(self.dir1), model3(self.dir2)),
                radius as int,
            ) <= 100_000_000_000,
            -100_000_000_000 <= coeff_c(
                model3(self.origin),
                spec_u0(model3(self.origin), model3(self.dir1), model3(self.dir2)),
                spec_u1(model3(self.origin), model3(self.dir1), model3(self.dir2)),
                radius as int,
            ) <= 100_000_000_000,
        ensures
            res@.len() == sphere_roots(
                model3(self.origin),
                spec_u0(model3(self.origin), model3(self.dir1), model3(self.dir2)),
                spec_u1(model3(self.origin), model3(self.dir1), model3(self.dir2)),
                radius as int,
            ).len(),
            forall|i: int| 0 <= i < res@.len() ==> tp_matches(
                res@[i],
                model3(self.origin),
                spec_u0(model3(self.origin), model3(self.dir1), model3(self.dir2)),
                spec_u1(model3(self.origin), model3(self.dir1), model3(self.dir2)),
                sphere_roots(
                    model3(self.origin),
                    spec_u0(model3(self.origin), model3(self.dir1), model3(self.dir2)),
                    spec_u1(model3(self.origin), model3(self.dir1), model3(self.dir2)),
                    radius as int,
                )[i],
            ),
    {
        tangents_sphere_full(&self.origin, &self.dir1, &self.dir2, radius)
    }
}

/// A ray given by an origin point and a direction.
#[derive(Copy, Clone, Debug, PartialEq, Eq, Structural)]
pub struct Ray {
    pub origin: Vect3,
    pub dir: Vect3,
}

impl Ray {
    /// Build a ray from the six coordinates of its origin and direction.
    pub fn new(x0: i128, y0: i128, z0: i128, x: i128, y: i128, z: i128) -> (r: Ray)
        ensures
            r.origin == (Vect3 { x: x0, y: y0, z: z0 }),
            r.dir == (Vect3 { x, y, z }),
    {
        Ray { origin: Vect3::new(x0, y0, z0), dir: Vect3::new(x, y, z) }
    }

    /// Known-incomplete entry point, kept deliberately in this state: it
    /// derives the correct ray/sphere intersection quadratic, solves it, and
    /// then discards the roots, always returning the empty sequence.
    pub fn intersects(&self, radius: i128) -> (r: Vec<Root>)
        requires
            bounded3(self.origin, 10_000),
            bounded3(self.dir, 10_000),
            -10_000 <= radius <= 10_000,
        ensures
            r@.len() == 0,
    {
        proof {
            lemma_mul_bound(radius as int, radius as int, 10_000, 10_000);
            lemma_dot3_bound(model3(self.origin), model3(self.origin), 10_000, 10_000);
            lemma_dot3_bound(model3(self.origin), model3(self.dir), 10_000, 10_000);
            lemma_dot3_bound(model3(self.dir), model3(self.dir), 10_000, 10_000);
        }
        let r2 = radius * radius;
        let origin2 = self.origin.dot(&self.origin);
        let origin_dir = self.origin.dot(&self.dir);
        let dir2 = self.dir.dot(&self.dir);
        let qa = dir2;
        let qb = 2 * origin_dir;
        let qc = origin2 - r2;
        resolve_quad(qa, qb, qc);
        Vec::new()
    }
}

} // verus!

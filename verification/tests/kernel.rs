//! End-to-end tests of the exact kernel: the quadratic solver's case
//! analysis, the plane/sphere tangent pipeline on grazing, missing and
//! crossing configurations, and the preserved quirks of the degenerate
//! branches.

use sphere_tangents::plane::Plane;
use sphere_tangents::plane::Ray;
use sphere_tangents::quadratic::Root;
use sphere_tangents::quadratic::resolve_quad;
use sphere_tangents::tangent::Surd;
use sphere_tangents::tangent::tangents_sphere;
use sphere_tangents::tangent::tangents_sphere_full;
use sphere_tangents::vec3::Vect3;

fn int_point(x: i128, y: i128, z: i128, w: i128) -> (Surd, Surd, Surd, Surd) {
    (
        Surd { r: x, s: 0 },
        Surd { r: y, s: 0 },
        Surd { r: z, s: 0 },
        Surd { r: w, s: 0 },
    )
}

#[test]
fn it_works_for_tangent() {
    let v1 = Vect3::new(1, 0, 0);
    let v2 = Vect3::new(0, 0, 1);
    let v3 = Vect3::new(0, 1, 0);
    let tangents = tangents_sphere_full(&v1, &v2, &v3, 1);
    assert_eq!(tangents.len(), 1);
    // The plane passes through (1,0,0) orthogonally to the x axis: the
    // single tangent point is (1,0,0), here with homogeneous weight 1.
    let (x, y, z, w) = int_point(1, 0, 0, 1);
    assert_eq!(tangents[0].x, x);
    assert_eq!(tangents[0].y, y);
    assert_eq!(tangents[0].z, z);
    assert_eq!(tangents[0].w, w);
    assert_eq!(tangents[0].d, 0);
}

#[test]
fn it_works_for_tangen2t() {
    let v1 = Vect3::new(1, 1, 0);
    let v2 = Vect3::new(0, 0, 1);
    let v3 = Vect3::new(0, 1, 0);
    let tangents = tangents_sphere_full(&v1, &v2, &v3, 1);
    assert_eq!(tangents.len(), 1);
    // Same tangent point (1,0,0), reached from a shifted plane origin: the
    // exact result carries homogeneous weight 4.
    let (x, y, z, w) = int_point(4, 0, 0, 4);
    assert_eq!(tangents[0].x, x);
    assert_eq!(tangents[0].y, y);
    assert_eq!(tangents[0].z, z);
    assert_eq!(tangents[0].w, w);
}

#[test]
fn it_works_for_tangen3t() {
    let v1 = Vect3::new(1, 1, 1);
    let v2 = Vect3::new(0, 0, 1);
    let v3 = Vect3::new(0, 1, 0);
    let tangents = tangents_sphere_full(&v1, &v2, &v3, 1);
    assert_eq!(tangents.len(), 1);
    // Tangent point (1,0,0) with homogeneous weight 128.
    let (x, y, z, w) = int_point(128, 0, 0, 128);
    assert_eq!(tangents[0].x, x);
    assert_eq!(tangents[0].y, y);
    assert_eq!(tangents[0].z, z);
    assert_eq!(tangents[0].w, w);
}

#[test]
fn it_works_for_tangen4t() {
    let v1 = Vect3::new(1, 1, 0);
    let v2 = Vect3::new(0, 1, 0);
    let v3 = Vect3::new(0, 0, 1);
    let tangents = tangents_sphere_full(&v1, &v2, &v3, 1);
    assert_eq!(tangents.len(), 1);
    // Tangent point (1,0,0) again, with the spanning directions swapped.
    let (x, y, z, w) = int_point(4, 0, 0, 4);
    assert_eq!(tangents[0].x, x);
    assert_eq!(tangents[0].y, y);
    assert_eq!(tangents[0].z, z);
    assert_eq!(tangents[0].w, w);
}

#[test]
fn it_works_for_non_crossing() {
    let v1 = Vect3::new(2, 0, 0);
    let v2 = Vect3::new(0, 0, 1);
    let v3 = Vect3::new(0, 1, 0);
    let tangents = tangents_sphere_full(&v1, &v2, &v3, 1);
    assert_eq!(tangents.len(), 0);
}

#[test]
fn it_works_for_crossing() {
    // A crossing configuration: the plane with origin (0.98, 1, 0) and unit
    // radius, scaled by 50 so it is exactly representable in integers.
    let v1 = Vect3::new(49, 50, 0);
    let v2 = Vect3::new(0, 0, 1);
    let v3 = Vect3::new(0, 1, 0);
    let tangents = tangents_sphere_full(&v1, &v2, &v3, 50);
    assert_eq!(tangents.len(), 2);
}

#[test]
fn crossing_points_are_conjugate_surds() {
    let v1 = Vect3::new(49, 50, 0);
    let v2 = Vect3::new(0, 0, 1);
    let v3 = Vect3::new(0, 1, 0);
    let tangents = tangents_sphere_full(&v1, &v2, &v3, 50);
    assert_eq!(tangents.len(), 2);
    // Both points carry the same positive discriminant, and the two results
    // are radical conjugates of each other.
    let discriminant: i128 = 4 * 6_002_500 * 247_500;
    assert_eq!(tangents[0].d, discriminant);
    assert_eq!(tangents[1].d, discriminant);
    assert_eq!(tangents[0].x.r, tangents[1].x.r);
    assert_eq!(tangents[0].x.s, -tangents[1].x.s);
    assert_eq!(tangents[0].w.r, tangents[1].w.r);
    assert_eq!(tangents[0].w.s, -tangents[1].w.s);
}

#[test]
fn two_real_roots_in_order() {
    // x^2 - 1: roots 1 and -1, the +sqrt root first:
    // (0 + 1*sqrt(4))/2 = 1, then (0 - 1*sqrt(4))/2 = -1.
    let roots = resolve_quad(1, 0, -1);
    assert_eq!(roots.len(), 2);
    assert_eq!(roots[0], Root { n: 0, q: 1, den: 2, d: 4 });
    assert_eq!(roots[1], Root { n: 0, q: -1, den: 2, d: 4 });
}

#[test]
fn degenerate_both_zero_gives_root_zero() {
    // a == 0 and c == 0: the single reported root is 0, whatever b is.
    let roots = resolve_quad(0, 5, 0);
    assert_eq!(roots.len(), 1);
    assert_eq!(roots[0], Root { n: 0, q: 0, den: 1, d: 0 });
    let roots = resolve_quad(0, -7, 0);
    assert_eq!(roots.len(), 1);
    assert_eq!(roots[0], Root { n: 0, q: 0, den: 1, d: 0 });
}

#[test]
fn degenerate_linear_keeps_historical_formula() {
    // a == 0, c != 0: the solver reports -b/c (here -2/4 = -0.5), not the
    // standard -c/b; a historical quirk this kernel keeps deliberately.
    let roots = resolve_quad(0, 2, 4);
    assert_eq!(roots.len(), 1);
    assert_eq!(roots[0], Root { n: -2, q: 0, den: 4, d: 0 });
}

#[test]
fn double_root_at_vertex() {
    // x^2 - 2x + 1: discriminant 0, single root -b/(2a) = 2/2 = 1.
    let roots = resolve_quad(1, -2, 1);
    assert_eq!(roots.len(), 1);
    assert_eq!(roots[0], Root { n: 2, q: 0, den: 2, d: 0 });
}

#[test]
fn negative_discriminant_has_no_roots() {
    let roots = resolve_quad(1, 0, 1);
    assert_eq!(roots.len(), 0);
}

#[test]
fn aligned_frame_call_matches_full_pipeline() {
    // With an already aligned frame, tangents_sphere agrees with the full
    // pipeline on the grazing configuration.
    let o = Vect3::new(1, 0, 0);
    let u0 = Vect3::new(0, 0, 1);
    let u1 = Vect3::new(0, 1, 0);
    let direct = tangents_sphere(&o, &u0, &u1, 1);
    let full = tangents_sphere_full(&o, &Vect3::new(0, 0, 1), &Vect3::new(0, 1, 0), 1);
    assert_eq!(direct, full);
}

#[test]
fn repeated_calls_are_identical() {
    // The pipeline is a pure function: two runs on the same inputs give
    // exactly the same exact points.
    let v1 = Vect3::new(49, 50, 0);
    let v2 = Vect3::new(0, 0, 1);
    let v3 = Vect3::new(0, 1, 0);
    let first = tangents_sphere_full(&v1, &v2, &v3, 50);
    let second = tangents_sphere_full(&v1, &v2, &v3, 50);
    assert_eq!(first, second);
}

#[test]
fn plane_tangents_delegates_to_pipeline() {
    let plane = Plane::new(1, 1, 0, 0, 0, 1, 0, 1, 0);
    let tangents = plane.tangents(1);
    assert_eq!(tangents.len(), 1);
    let direct = tangents_sphere_full(&Vect3::new(1, 1, 0), &Vect3::new(0, 0, 1), &Vect3::new(0, 1, 0), 1);
    assert_eq!(tangents, direct);
}

#[test]
fn plane_new_stores_coordinates() {
    let plane = Plane::new(1, 2, 3, 4, 5, 6, 7, 8, 9);
    assert_eq!(plane.origin, Vect3::new(1, 2, 3));
    assert_eq!(plane.dir1, Vect3::new(4, 5, 6));
    assert_eq!(plane.dir2, Vect3::new(7, 8, 9));
}

#[test]
fn ray_intersects_is_documented_stub() {
    // The ray entry point derives the intersection quadratic and then
    // discards it: the result is empty even when the ray pierces the sphere.
    let ray = Ray::new(2, 0, 0, -1, 0, 0);
    assert_eq!(ray.intersects(1).len(), 0);
    let ray = Ray::new(0, 0, 0, 1, 0, 0);
    assert_eq!(ray.intersects(1).len(), 0);
}

#[test]
fn vect3_operations_are_exact() {
    let a = Vect3::new(1, 2, 3);
    let b = Vect3::new(4, 5, 6);
    assert_eq!(a.dot(&b), 32);
    assert_eq!(a.cross(&b), Vect3::new(-3, 6, -3));
    assert_eq!(a.scale(2), Vect3::new(2, 4, 6));
    assert_eq!(b.sub(&a), Vect3::new(3, 3, 3));
}

#[test]
fn radius_zero_degenerates_to_center() {
    // Zero radius: a plane away from the origin cannot touch the point
    // sphere ...
    let o = Vect3::new(1, 0, 0);
    let u0 = Vect3::new(0, 0, 1);
    let u1 = Vect3::new(0, 1, 0);
    let tangents = tangents_sphere(&o, &u0, &u1, 0);
    assert_eq!(tangents.len(), 0);
    // ... while a plane through the origin degenerates to the sphere's
    // center point itself.
    let o = Vect3::new(0, 0, 0);
    let tangents = tangents_sphere(&o, &u0, &u1, 0);
    assert_eq!(tangents.len(), 1);
    let (x, y, z, w) = int_point(0, 0, 0, 1);
    assert_eq!(tangents[0].x, x);
    assert_eq!(tangents[0].y, y);
    assert_eq!(tangents[0].z, z);
    assert_eq!(tangents[0].w, w);
}

use pathtracer::aabb::AABB;
use pathtracer::constant_medium::ConstantMedium;
use pathtracer::cuboid::Box as SolidBox;
use pathtracer::hittable::{HitRecord, Hittable, HittableList};
use pathtracer::materials::{Lambertian, Material};
use pathtracer::ray::Ray;
use pathtracer::rectangle::{XYRect, XZRect, YZRect};
use pathtracer::rotate::RotateY;
use pathtracer::scalar::{Scalar, LIMIT_RAW};
use pathtracer::sphere::{MovingSphere, Sphere};
use pathtracer::translate::Translate;
use pathtracer::vec3::Vec3;
use std::sync::Arc;

fn sc(x: f64) -> Scalar {
    Scalar::from_raw((x * 16777216.0).round() as i64)
}

fn val(s: Scalar) -> f64 {
    s.value() as f64 / 16777216.0
}

fn v3(x: f64, y: f64, z: f64) -> Vec3 {
    Vec3::new(sc(x), sc(y), sc(z))
}

fn close(a: f64, b: f64, tolerance: f64) -> bool {
    (a - b).abs() <= tolerance
}

fn near(a: Vec3, x: f64, y: f64, z: f64, tolerance: f64) -> bool {
    close(val(a.x), x, tolerance) && close(val(a.y), y, tolerance) && close(val(a.z), z, tolerance)
}

fn grey() -> Arc<Material> {
    Arc::new(Material::Lambertian(Lambertian::new(v3(0.5, 0.5, 0.5))))
}

fn ray(o: (f64, f64, f64), d: (f64, f64, f64)) -> Ray {
    Ray::new(v3(o.0, o.1, o.2), v3(d.0, d.1, d.2), Scalar::zero())
}

fn unit_sphere() -> Sphere {
    Sphere::new(v3(0.0, 0.0, 0.0), sc(1.0), grey())
}

#[test]
fn ray_at_walks_along_the_direction() {
    let r = ray((1.0, 2.0, 3.0), (0.5, 0.0, -1.0));
    let p = r.at(sc(4.0));
    assert_eq!(p.x.raw, sc(3.0).raw);
    assert_eq!(p.y.raw, sc(2.0).raw);
    assert_eq!(p.z.raw, sc(-1.0).raw);
}

#[test]
fn sphere_is_hit_head_on_at_four() {
    let s = unit_sphere();
    let r = ray((0.0, 0.0, -5.0), (0.0, 0.0, 1.0));
    let rec = s.hit(&r, sc(0.001), Scalar::infinity()).unwrap();
    assert_eq!(rec.t.raw, sc(4.0).raw);
    assert_eq!(rec.normal.x.raw, 0);
    assert_eq!(rec.normal.y.raw, 0);
    assert_eq!(rec.normal.z.raw, sc(-1.0).raw);
    assert!(rec.front_face);
    assert_eq!(rec.position.z.raw, sc(-1.0).raw);
}

#[test]
fn sphere_is_missed_beside_it() {
    let s = unit_sphere();
    let r = ray((2.0, 0.0, -5.0), (0.0, 0.0, 1.0));
    assert!(s.hit(&r, sc(0.001), Scalar::infinity()).is_none());
}

#[test]
fn sphere_far_root_is_taken_from_inside() {
    let s = unit_sphere();
    let r = ray((0.0, 0.0, 0.0), (0.0, 0.0, 1.0));
    let rec = s.hit(&r, sc(0.001), Scalar::infinity()).unwrap();
    assert_eq!(rec.t.raw, sc(1.0).raw);
    assert!(!rec.front_face);
    assert_eq!(rec.normal.z.raw, sc(-1.0).raw);
}

#[test]
fn sphere_hit_respects_the_interval() {
    let s = unit_sphere();
    let r = ray((0.0, 0.0, -5.0), (0.0, 0.0, 1.0));
    assert!(s.hit(&r, sc(0.001), sc(3.9)).is_none());
    assert!(s.hit(&r, sc(6.1), sc(100.0)).is_none());
    let far = s.hit(&r, sc(4.5), sc(100.0)).unwrap();
    assert_eq!(far.t.raw, sc(6.0).raw);
    let edge = s.hit(&r, sc(4.0), sc(4.0)).unwrap();
    assert_eq!(edge.t.raw, sc(4.0).raw);
}

#[test]
fn sphere_ignores_a_ray_without_direction() {
    let s = unit_sphere();
    let r = ray((0.0, 0.0, 0.0), (0.0, 0.0, 0.0));
    assert!(s.hit(&r, Scalar::infinity().neg(), Scalar::infinity()).is_none());
}

#[test]
fn sphere_surface_coordinates() {
    let s = unit_sphere();
    let (u, v) = s.get_sphere_uv(v3(1.0, 0.0, 0.0));
    assert!(close(val(u), 0.5, 1e-4));
    assert!(close(val(v), 0.5, 1e-4));
    let (_, top) = s.get_sphere_uv(v3(0.0, 1.0, 0.0));
    assert!(close(val(top), 1.0, 1e-3));
    let (u2, _) = s.get_sphere_uv(v3(0.0, 0.0, -1.0));
    assert!(close(val(u2), 0.75, 1e-4));
}

#[test]
fn sphere_bounding_box_is_its_cube() {
    let s = Sphere::new(v3(1.0, 2.0, 3.0), sc(0.5), grey());
    let b = s.bounding_box(Scalar::zero(), Scalar::one()).unwrap();
    assert_eq!(b.min.x.raw, sc(0.5).raw);
    assert_eq!(b.min.y.raw, sc(1.5).raw);
    assert_eq!(b.max.z.raw, sc(3.5).raw);
}

#[test]
fn moving_sphere_moves_along_its_line() {
    let m = MovingSphere::new(v3(0.0, 0.0, 0.0), v3(2.0, 0.0, 0.0), sc(0.0), sc(1.0), sc(0.5), grey());
    let c = m.center(sc(0.5));
    assert_eq!(c.x.raw, sc(1.0).raw);
    let hit_late = m.hit(
        &Ray::new(v3(2.0, 0.0, -5.0), v3(0.0, 0.0, 1.0), sc(1.0)),
        sc(0.001),
        Scalar::infinity(),
    );
    assert_eq!(hit_late.unwrap().t.raw, sc(4.5).raw);
    let miss_early = m.hit(
        &Ray::new(v3(2.0, 0.0, -5.0), v3(0.0, 0.0, 1.0), sc(0.0)),
        sc(0.001),
        Scalar::infinity(),
    );
    assert!(miss_early.is_none());
    let b = m.bounding_box(sc(0.0), sc(1.0)).unwrap();
    assert_eq!(b.min.x.raw, sc(-0.5).raw);
    assert_eq!(b.max.x.raw, sc(2.5).raw);
}

#[test]
fn rectangle_hit_and_surface_coordinates() {
    let r = XYRect::new(grey(), sc(0.0), sc(2.0), sc(0.0), sc(4.0), sc(3.0));
    let rec = r.hit(&ray((0.5, 1.0, 0.0), (0.0, 0.0, 1.0)), sc(0.001), Scalar::infinity()).unwrap();
    assert_eq!(rec.t.raw, sc(3.0).raw);
    assert_eq!(rec.u.raw, sc(0.25).raw);
    assert_eq!(rec.v.raw, sc(0.25).raw);
    assert_eq!(rec.normal.z.raw, sc(-1.0).raw);
    assert!(!rec.front_face);
}

#[test]
fn rectangle_is_missed_outside_its_bounds() {
    let r = XYRect::new(grey(), sc(0.0), sc(2.0), sc(0.0), sc(4.0), sc(3.0));
    assert!(r.hit(&ray((2.5, 1.0, 0.0), (0.0, 0.0, 1.0)), sc(0.001), Scalar::infinity()).is_none());
    assert!(r.hit(&ray((0.5, 1.0, 0.0), (0.0, 0.0, 1.0)), sc(0.001), sc(2.9)).is_none());
    assert!(r.hit(&ray((0.5, 1.0, 0.0), (0.0, 0.0, -1.0)), sc(0.001), Scalar::infinity()).is_none());
}

#[test]
fn rectangle_parallel_ray_is_a_miss() {
    let r = XYRect::new(grey(), sc(0.0), sc(2.0), sc(0.0), sc(4.0), sc(3.0));
    let along = ray((0.5, 1.0, 3.0), (1.0, 0.0, 0.0));
    assert!(r.hit(&along, Scalar::infinity().neg(), Scalar::infinity()).is_none());
    let still = ray((0.5, 1.0, 0.0), (0.0, 0.0, 0.0));
    assert!(r.hit(&still, Scalar::infinity().neg(), Scalar::infinity()).is_none());
}

#[test]
fn the_three_rectangles_face_their_axes() {
    let xz = XZRect::new(grey(), sc(-1.0), sc(1.0), sc(-1.0), sc(1.0), sc(2.0));
    let rec = xz.hit(&ray((0.0, 0.0, 0.0), (0.0, 1.0, 0.0)), sc(0.001), Scalar::infinity()).unwrap();
    assert_eq!(rec.t.raw, sc(2.0).raw);
    assert_eq!(rec.normal.y.raw, sc(-1.0).raw);
    let yz = YZRect::new(grey(), sc(-1.0), sc(1.0), sc(-1.0), sc(1.0), sc(-2.0));
    let rec = yz.hit(&ray((0.0, 0.0, 0.0), (-1.0, 0.0, 0.0)), sc(0.001), Scalar::infinity()).unwrap();
    assert_eq!(rec.t.raw, sc(2.0).raw);
    assert_eq!(rec.normal.x.raw, sc(1.0).raw);
    assert!(rec.front_face);
}

#[test]
fn rectangle_box_is_padded() {
    let r = XZRect::new(grey(), sc(0.0), sc(1.0), sc(0.0), sc(1.0), sc(5.0));
    let b = r.bounding_box(Scalar::zero(), Scalar::one()).unwrap();
    let pad = Scalar::from_ratio(1, 10000).raw;
    assert!(pad > 0);
    assert_eq!(b.min.y.raw, sc(5.0).raw - pad);
    assert_eq!(b.max.y.raw, sc(5.0).raw + pad);
    assert_eq!(b.min.x.raw, 0);
    assert_eq!(b.max.z.raw, sc(1.0).raw);
}

#[test]
fn set_face_normal_turns_against_the_ray() {
    let dirs = [(0.0, 0.0, 1.0), (0.3, -0.2, 0.9), (-1.0, -1.0, -1.0), (0.0, 5.0, 0.0)];
    let normals = [(0.0, 0.0, 1.0), (0.0, 0.0, -1.0), (0.6, 0.8, 0.0), (-0.1, 0.7, 0.2)];
    for d in dirs {
        for n in normals {
            let r = ray((0.0, 0.0, 0.0), d);
            let mut rec = HitRecord::new(v3(0.0, 0.0, 0.0), grey(), sc(1.0));
            rec.set_face_normal(&r, v3(n.0, n.1, n.2));
            assert!(r.direction.dot(rec.normal).raw <= 0);
            let outward_dot = r.direction.dot(v3(n.0, n.1, n.2)).raw;
            assert_eq!(rec.front_face, outward_dot < 0);
        }
    }
}

#[test]
fn aabb_hit_and_miss() {
    let b = AABB::new(v3(-1.0, -1.0, -1.0), v3(1.0, 1.0, 1.0));
    assert!(b.hit(&ray((0.0, 0.0, -5.0), (0.0, 0.0, 1.0)), sc(0.001), Scalar::infinity()));
    assert!(!b.hit(&ray((2.0, 0.0, -5.0), (0.0, 0.0, 1.0)), sc(0.001), Scalar::infinity()));
    assert!(!b.hit(&ray((0.0, 0.0, -5.0), (0.0, 0.0, -1.0)), sc(0.001), Scalar::infinity()));
    assert!(!b.hit(&ray((0.0, 0.0, -5.0), (0.0, 0.0, 1.0)), sc(0.001), sc(3.5)));
    assert!(b.hit(&ray((0.0, 0.0, -5.0), (0.2, 0.1, 1.0)), sc(0.001), Scalar::infinity()));
    assert!(b.hit(&ray((0.0, 0.0, 5.0), (0.0, 0.0, -2.0)), sc(0.001), Scalar::infinity()));
}

#[test]
fn aabb_parallel_ray_goes_by_its_origin() {
    let b = AABB::new(v3(-1.0, -1.0, -1.0), v3(1.0, 1.0, 1.0));
    // parallel to the x and y slabs, inside both
    assert!(b.hit(&ray((0.5, -0.5, -5.0), (0.0, 0.0, 1.0)), sc(0.0), Scalar::infinity()));
    // on a face
    assert!(b.hit(&ray((1.0, 0.0, -5.0), (0.0, 0.0, 1.0)), sc(0.0), Scalar::infinity()));
    // just outside
    assert!(!b.hit(&ray((1.000001, 0.0, -5.0), (0.0, 0.0, 1.0)), sc(0.0), Scalar::infinity()));
    // no direction at all
    assert!(b.hit(&ray((0.0, 0.0, 0.0), (0.0, 0.0, 0.0)), sc(0.0), sc(1.0)));
    assert!(!b.hit(&ray((0.0, 0.0, 0.0), (0.0, 0.0, 0.0)), sc(1.0), sc(1.0)));
}

#[test]
fn aabb_intervals_narrow_across_axes() {
    // the ray crosses the x slab for t in [0, 1] and the y slab for t in
    // [2, 3]: each slab is crossed, but never both at once
    let b = AABB::new(v3(0.0, 2.0, -1.0), v3(1.0, 3.0, 1.0));
    assert!(!b.hit(&ray((0.0, 0.0, 0.0), (1.0, 1.0, 0.0)), sc(-10.0), sc(10.0)));
}

#[test]
fn surrounding_box_contains_both_and_no_more() {
    let a = AABB::new(v3(-1.0, 0.0, 2.0), v3(1.0, 3.0, 4.0));
    let b = AABB::new(v3(0.0, -2.0, 3.0), v3(5.0, 1.0, 3.5));
    let s = a.surrounding_box(b);
    assert_eq!(s.min.x.raw, sc(-1.0).raw);
    assert_eq!(s.min.y.raw, sc(-2.0).raw);
    assert_eq!(s.min.z.raw, sc(2.0).raw);
    assert_eq!(s.max.x.raw, sc(5.0).raw);
    assert_eq!(s.max.y.raw, sc(3.0).raw);
    assert_eq!(s.max.z.raw, sc(4.0).raw);
    for k in 0..8 {
        for c in [a.get_corner(k), b.get_corner(k)] {
            assert!(s.min.x.le(c.x) && c.x.le(s.max.x));
            assert!(s.min.y.le(c.y) && c.y.le(s.max.y));
            assert!(s.min.z.le(c.z) && c.z.le(s.max.z));
        }
    }
    let e = AABB::empty().surrounding_box(a);
    assert_eq!(e.min.x.raw, a.min.x.raw);
    assert_eq!(e.max.z.raw, a.max.z.raw);
}

#[test]
fn box_has_six_sides_and_its_own_bounds() {
    let b = SolidBox::new(v3(0.0, 0.0, 0.0), v3(1.0, 2.0, 3.0), grey());
    assert_eq!(b.sides.objects.len(), 6);
    assert!(matches!(*b.sides.objects[0], Hittable::XYRect(_)));
    assert!(matches!(*b.sides.objects[1], Hittable::XYRect(_)));
    assert!(matches!(*b.sides.objects[2], Hittable::XZRect(_)));
    assert!(matches!(*b.sides.objects[3], Hittable::XZRect(_)));
    assert!(matches!(*b.sides.objects[4], Hittable::YZRect(_)));
    assert!(matches!(*b.sides.objects[5], Hittable::YZRect(_)));
    if let Hittable::XYRect(far) = &*b.sides.objects[0] {
        assert_eq!(far.k.raw, sc(3.0).raw);
        assert_eq!(far.x1.raw, sc(1.0).raw);
        assert_eq!(far.y1.raw, sc(2.0).raw);
    }
    if let Hittable::YZRect(low) = &*b.sides.objects[5] {
        assert_eq!(low.k.raw, 0);
        assert_eq!(low.z1.raw, sc(3.0).raw);
    }
    let bounds = b.bounding_box(Scalar::zero(), Scalar::one()).unwrap();
    assert_eq!(bounds.min.x.raw, 0);
    assert_eq!(bounds.max.y.raw, sc(2.0).raw);
}

#[test]
fn box_is_hit_on_its_nearest_side() {
    let b = SolidBox::new(v3(0.0, 0.0, 0.0), v3(1.0, 1.0, 1.0), grey());
    let rec = b.hit(&ray((0.5, 0.5, -2.0), (0.0, 0.0, 1.0)), sc(0.001), Scalar::infinity()).unwrap();
    assert_eq!(rec.t.raw, sc(2.0).raw);
    assert_eq!(rec.normal.z.raw, sc(-1.0).raw);
    let from_inside = b.hit(&ray((0.5, 0.5, 0.5), (1.0, 0.0, 0.0)), sc(0.001), Scalar::infinity()).unwrap();
    assert_eq!(from_inside.t.raw, sc(0.5).raw);
    assert!(b.hit(&ray((2.0, 2.0, -2.0), (0.0, 0.0, 1.0)), sc(0.001), Scalar::infinity()).is_none());
}

#[test]
fn list_keeps_the_nearest_hit() {
    let mut list = HittableList::new();
    assert!(list.bounding_box(Scalar::zero(), Scalar::one()).is_none());
    list.add(Arc::new(Hittable::Sphere(Sphere::new(v3(0.0, 0.0, 10.0), sc(1.0), grey()))));
    list.add(Arc::new(Hittable::Sphere(Sphere::new(v3(0.0, 0.0, 5.0), sc(1.0), grey()))));
    list.add(Arc::new(Hittable::Sphere(Sphere::new(v3(0.0, 0.0, 20.0), sc(1.0), grey()))));
    let r = ray((0.0, 0.0, 0.0), (0.0, 0.0, 1.0));
    let rec = list.hit(&r, sc(0.001), Scalar::infinity()).unwrap();
    assert_eq!(rec.t.raw, sc(4.0).raw);
    let behind = list.hit(&r, sc(7.0), Scalar::infinity()).unwrap();
    assert_eq!(behind.t.raw, sc(9.0).raw);
    let b = list.bounding_box(Scalar::zero(), Scalar::one()).unwrap();
    assert_eq!(b.min.z.raw, sc(4.0).raw);
    assert_eq!(b.max.z.raw, sc(21.0).raw);
    assert_eq!(b.min.x.raw, sc(-1.0).raw);
    list.clear();
    assert_eq!(list.objects.len(), 0);
    assert!(list.hit(&r, sc(0.001), Scalar::infinity()).is_none());
}

#[test]
fn list_copies_share_their_shapes() {
    let mut list = HittableList::new();
    list.add(Arc::new(Hittable::Sphere(unit_sphere())));
    let copy = list.clone();
    assert_eq!(copy.objects.len(), 1);
    assert!(Arc::ptr_eq(&copy.objects[0], &list.objects[0]));
}

#[test]
fn list_tie_stays_with_the_earlier_shape() {
    let red = Arc::new(Material::Lambertian(Lambertian::new(v3(1.0, 0.0, 0.0))));
    let blue = Arc::new(Material::Lambertian(Lambertian::new(v3(0.0, 0.0, 1.0))));
    let mut list = HittableList::new();
    list.add(Arc::new(Hittable::Sphere(Sphere::new(v3(0.0, 0.0, 5.0), sc(1.0), red.clone()))));
    list.add(Arc::new(Hittable::Sphere(Sphere::new(v3(0.0, 0.0, 5.0), sc(1.0), blue))));
    let r = ray((0.0, 0.0, 0.0), (0.0, 0.0, 1.0));
    let rec = list.hit(&r, sc(0.001), Scalar::infinity()).unwrap();
    assert!(Arc::ptr_eq(&rec.material, &red));
    // also where the first hit lies on the end of the interval
    let edge = list.hit(&r, sc(0.001), sc(4.0)).unwrap();
    assert_eq!(edge.t.raw, sc(4.0).raw);
    assert!(Arc::ptr_eq(&edge.material, &red));
}

#[test]
fn translate_moves_the_shape() {
    let inner = Arc::new(Hittable::Sphere(unit_sphere()));
    let moved = Translate::new(inner, v3(3.0, 0.0, 0.0));
    let rec = moved.hit(&ray((3.0, 0.0, -5.0), (0.0, 0.0, 1.0)), sc(0.001), Scalar::infinity()).unwrap();
    assert_eq!(rec.t.raw, sc(4.0).raw);
    assert_eq!(rec.position.x.raw, sc(3.0).raw);
    assert_eq!(rec.position.z.raw, sc(-1.0).raw);
    assert!(moved.hit(&ray((0.0, 0.0, -5.0), (0.0, 0.0, 1.0)), sc(0.001), Scalar::infinity()).is_none());
    let b = moved.bounding_box(Scalar::zero(), Scalar::one()).unwrap();
    assert_eq!(b.min.x.raw, sc(2.0).raw);
    assert_eq!(b.max.x.raw, sc(4.0).raw);
}

#[test]
fn rotate_turns_the_shape_about_y() {
    let inner = Arc::new(Hittable::Sphere(Sphere::new(v3(2.0, 0.0, 0.0), sc(0.5), grey())));
    let turned = RotateY::new(inner, sc(90.0));
    assert!(close(val(turned.sin_theta), 1.0, 1e-5));
    assert!(close(val(turned.cos_theta), 0.0, 1e-5));
    // a quarter turn about y carries (2, 0, 0) to (0, 0, -2)
    let rec = turned.hit(&ray((0.0, 0.0, -10.0), (0.0, 0.0, 1.0)), sc(0.001), Scalar::infinity()).unwrap();
    assert!(close(val(rec.t), 7.5, 1e-3));
    assert!(near(rec.position, 0.0, 0.0, -2.5, 1e-3));
    assert!(turned.hit(&ray((2.0, 0.0, -10.0), (0.0, 0.0, 1.0)), sc(0.001), Scalar::infinity()).is_none());
    let b = turned.bounding_box(Scalar::zero(), Scalar::one()).unwrap();
    assert!(near(b.min, -0.5, -0.5, -2.5, 1e-3));
    assert!(near(b.max, 0.5, 0.5, -1.5, 1e-3));
}

#[test]
fn rotate_by_zero_changes_nothing() {
    let inner = Arc::new(Hittable::Sphere(unit_sphere()));
    let turned = RotateY::new(inner, Scalar::zero());
    let rec = turned.hit(&ray((0.0, 0.0, -5.0), (0.0, 0.0, 1.0)), sc(0.001), Scalar::infinity()).unwrap();
    assert!(close(val(rec.t), 4.0, 1e-5));
    let b = turned.bounding_box(Scalar::zero(), Scalar::one()).unwrap();
    assert!(near(b.min, -1.0, -1.0, -1.0, 1e-5));
    assert!(near(b.max, 1.0, 1.0, 1.0, 1e-5));
}

#[test]
fn rotate_of_an_unbounded_shape_has_no_box() {
    let empty = Arc::new(Hittable::List(HittableList::new()));
    let turned = RotateY::new(empty, sc(30.0));
    assert!(turned.bbox.is_none());
    assert!(turned.bounding_box(Scalar::zero(), Scalar::one()).is_none());
}

#[test]
fn medium_crossing_brackets_the_boundary() {
    let radius = 3.0;
    let boundary = Arc::new(Hittable::Sphere(Sphere::new(v3(0.0, 0.0, 0.0), sc(radius), grey())));
    let medium = ConstantMedium::new_from_color(boundary, v3(1.0, 1.0, 1.0), sc(0.5));
    let r = ray((0.0, 0.0, 0.0), (0.0, 0.0, 1.0));
    let (entry, exit) = medium.crossing(&r).unwrap();
    assert!(close(val(entry), -radius, 1e-4));
    assert!(close(val(exit), radius, 1e-4));
    assert!(val(exit) - val(entry) > 0.0);
    assert!(close(val(medium.neg_inv_density), -2.0, 1e-6));
}

#[test]
fn medium_scatters_at_the_drawn_depth() {
    let boundary = Arc::new(Hittable::Sphere(Sphere::new(v3(0.0, 0.0, 0.0), sc(3.0), grey())));
    let medium = ConstantMedium::new_from_color(boundary, v3(1.0, 1.0, 1.0), sc(0.5));
    let r = ray((0.0, 0.0, -10.0), (0.0, 0.0, 2.0));
    // inside for t in [3.5, 6.5]; free flight -2 ln(0.5) = 1.386 scene
    // units, that is 0.693 in t
    let rec = medium.hit_with(&r, sc(0.001), Scalar::infinity(), sc(0.5)).unwrap();
    assert!(close(val(rec.t), 3.5 + 0.5f64.ln() * -2.0 / 2.0, 1e-4));
    assert_eq!(rec.normal.x.raw, 0);
    assert_eq!(rec.normal.y.raw, 0);
    assert_eq!(rec.normal.z.raw, 0);
    assert!(!rec.front_face);
    assert!(matches!(*rec.material, Material::Isotropic(_)));
    // a long flight leaves the medium
    assert!(medium.hit_with(&r, sc(0.001), Scalar::infinity(), sc(0.01)).is_none());
    assert!(medium.hit_with(&r, sc(0.001), Scalar::infinity(), Scalar::zero()).is_none());
    // clipped away
    assert!(medium.hit_with(&r, sc(0.001), sc(3.0), sc(0.99)).is_none());
    assert!(medium.hit_with(&r, sc(7.0), sc(9.0), sc(0.99)).is_none());
    // a ray that misses the boundary
    let beside = ray((5.0, 0.0, -10.0), (0.0, 0.0, 2.0));
    assert!(medium.hit_with(&beside, sc(0.001), Scalar::infinity(), sc(0.99)).is_none());
}

#[test]
fn medium_starts_at_the_origin_of_a_ray_inside() {
    let boundary = Arc::new(Hittable::Sphere(Sphere::new(v3(0.0, 0.0, 0.0), sc(3.0), grey())));
    let medium = ConstantMedium::new_from_color(boundary, v3(1.0, 1.0, 1.0), sc(0.5));
    let r = ray((0.0, 0.0, 0.0), (0.0, 0.0, 1.0));
    let rec = medium.hit_with(&r, Scalar::infinity().neg(), Scalar::infinity(), sc(0.5)).unwrap();
    assert!(close(val(rec.t), 0.5f64.ln() * -2.0, 1e-4));
}

#[test]
fn medium_hits_stay_inside_the_interval() {
    let boundary = Arc::new(Hittable::Sphere(Sphere::new(v3(0.0, 0.0, 0.0), sc(3.0), grey())));
    let medium = Hittable::ConstantMedium(ConstantMedium::new_from_color(
        boundary,
        v3(1.0, 1.0, 1.0),
        sc(2.0),
    ));
    let r = ray((0.0, 0.0, -10.0), (0.0, 0.0, 1.0));
    let mut hits = 0;
    for _ in 0..200 {
        if let Some(rec) = medium.hit(&r, sc(7.5), sc(8.0)) {
            assert!(sc(7.5).le(rec.t) && rec.t.le(sc(8.0)));
            hits += 1;
        }
    }
    assert!(hits > 0);
    let b = medium.bounding_box(Scalar::zero(), Scalar::one()).unwrap();
    assert_eq!(b.min.x.raw, sc(-3.0).raw);
}

#[test]
fn infinity_is_the_limit() {
    assert_eq!(Scalar::infinity().raw, LIMIT_RAW);
}

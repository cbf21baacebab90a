use pathtracer::bvh::{BVHNode, BvhError};
use pathtracer::camera::Camera;
use pathtracer::cuboid::Box as SolidBox;
use pathtracer::hittable::{Hittable, HittableList};
use pathtracer::image::{Image, Pixel};
use pathtracer::materials::{DiffuseLight, Lambertian, Material};
use pathtracer::ray::Ray;
use pathtracer::rectangle::XYRect;
use pathtracer::render::{byte_of, merge, pixel_of, render_rows, row_range, sample_pixel};
use pathtracer::scalar::Scalar;
use pathtracer::sphere::Sphere;
use pathtracer::vec3::Vec3;
use std::sync::Arc;

fn sc(x: f64) -> Scalar {
    Scalar::from_raw((x * 16777216.0).round() as i64)
}

fn v3(x: f64, y: f64, z: f64) -> Vec3 {
    Vec3::new(sc(x), sc(y), sc(z))
}

fn material(k: u32) -> Arc<Material> {
    Arc::new(Material::Lambertian(Lambertian::new(v3(k as f64 / 100.0, 0.5, 0.5))))
}

/// A small generator of reproducible numbers in [0, 1).
fn next(state: &mut u64) -> f64 {
    *state = state.wrapping_mul(6364136223846793005).wrapping_add(1442695040888963407);
    ((*state >> 33) as f64) / ((1u64 << 31) as f64)
}

fn scene(seed: u64, count: u32) -> Vec<Arc<Hittable>> {
    let mut state = seed;
    let mut shapes = Vec::new();
    for k in 0..count {
        let c = v3(
            next(&mut state) * 20.0 - 10.0,
            next(&mut state) * 20.0 - 10.0,
            next(&mut state) * 20.0 - 10.0,
        );
        let r = sc(0.3 + next(&mut state) * 1.5);
        shapes.push(Arc::new(Hittable::Sphere(Sphere::new(c, r, material(k)))));
    }
    shapes
}

fn list_of(shapes: &Vec<Arc<Hittable>>) -> HittableList {
    let mut list = HittableList::new();
    for s in shapes {
        list.add(s.clone());
    }
    list
}

/// Every shape asked over the whole interval, the nearer hit kept.
fn brute_force(shapes: &Vec<Arc<Hittable>>, ray: &Ray, t_min: Scalar, t_max: Scalar) -> Option<(i64, Arc<Material>)> {
    let mut best: Option<(i64, Arc<Material>)> = None;
    for s in shapes {
        if let Some(rec) = s.hit(ray, t_min, t_max) {
            let nearer = match &best {
                Some((t, _)) => rec.t.raw <= *t,
                None => true,
            };
            if nearer {
                best = Some((rec.t.raw, rec.material.clone()));
            }
        }
    }
    best
}

#[test]
fn hierarchy_agrees_with_a_scan_of_all_shapes() {
    for seed in 1..8u64 {
        let shapes = scene(seed, 5 + 6 * seed as u32);
        let tree = BVHNode::from_list(list_of(&shapes), sc(0.0), sc(1.0)).unwrap();
        let mut state = seed * 977;
        let mut hits = 0;
        for _ in 0..300 {
            let ray = Ray::new(
                v3(next(&mut state) * 30.0 - 15.0, next(&mut state) * 30.0 - 15.0, -20.0),
                v3(next(&mut state) - 0.5, next(&mut state) - 0.5, 1.0),
                sc(0.0),
            );
            let got = tree.hit(&ray, sc(0.001), Scalar::infinity());
            let want = brute_force(&shapes, &ray, sc(0.001), Scalar::infinity());
            match (got, want) {
                (None, None) => {},
                (Some(rec), Some((t, m))) => {
                    assert_eq!(rec.t.raw, t);
                    assert!(Arc::ptr_eq(&rec.material, &m));
                    hits += 1;
                },
                (Some(rec), None) => panic!("the hierarchy hit at {} what the scan missed", rec.t.raw),
                (None, Some((t, _))) => panic!("the hierarchy missed a hit at {}", t),
            }
        }
        assert!(hits > 0);
    }
}

#[test]
fn hierarchy_is_a_tree_of_nested_boxes() {
    let shapes = scene(42, 9);
    let tree = BVHNode::from_list(list_of(&shapes), sc(0.0), sc(1.0)).unwrap();
    fn walk(node: &Arc<Hittable>, leaves: &mut Vec<Arc<Hittable>>) {
        match &**node {
            Hittable::BVH(n) => {
                let l = n.left.bounding_box(sc(0.0), sc(1.0)).unwrap();
                let r = n.right.bounding_box(sc(0.0), sc(1.0)).unwrap();
                let both = l.surrounding_box(r);
                assert_eq!(n.box_.min.x.raw, both.min.x.raw);
                assert_eq!(n.box_.min.y.raw, both.min.y.raw);
                assert_eq!(n.box_.min.z.raw, both.min.z.raw);
                assert_eq!(n.box_.max.x.raw, both.max.x.raw);
                assert_eq!(n.box_.max.y.raw, both.max.y.raw);
                assert_eq!(n.box_.max.z.raw, both.max.z.raw);
                walk(&n.left, leaves);
                walk(&n.right, leaves);
            },
            _ => leaves.push(node.clone()),
        }
    }
    let mut leaves = Vec::new();
    walk(&tree, &mut leaves);
    for s in &shapes {
        assert!(leaves.iter().any(|l| Arc::ptr_eq(l, s)));
    }
    for l in &leaves {
        assert!(shapes.iter().any(|s| Arc::ptr_eq(l, s)));
    }
    let b = tree.bounding_box(sc(0.0), sc(1.0)).unwrap();
    let all = list_of(&shapes).bounding_box(sc(0.0), sc(1.0)).unwrap();
    assert_eq!(b.min.x.raw, all.min.x.raw);
    assert_eq!(b.max.z.raw, all.max.z.raw);
}

#[test]
fn hierarchy_of_one_shape_holds_it_twice() {
    let shapes = scene(7, 1);
    let tree = BVHNode::from_list(list_of(&shapes), sc(0.0), sc(1.0)).unwrap();
    match &*tree {
        Hittable::BVH(n) => {
            assert!(Arc::ptr_eq(&n.left, &shapes[0]));
            assert!(Arc::ptr_eq(&n.right, &shapes[0]));
        },
        _ => panic!("not a node"),
    }
}

#[test]
fn hierarchy_refuses_an_empty_list() {
    let r = BVHNode::from_list(HittableList::new(), sc(0.0), sc(1.0));
    assert!(matches!(r, Err(BvhError::Empty)));
}

#[test]
fn hierarchy_refuses_a_shape_without_bounds() {
    let mut shapes = scene(3, 4);
    shapes.push(Arc::new(Hittable::List(HittableList::new())));
    let r = BVHNode::from_list(list_of(&shapes), sc(0.0), sc(1.0));
    assert!(matches!(r, Err(BvhError::Unbounded)));
    let alone = vec![Arc::new(Hittable::List(HittableList::new()))];
    let r = BVHNode::from_list(list_of(&alone), sc(0.0), sc(1.0));
    assert!(matches!(r, Err(BvhError::Unbounded)));
}

#[test]
fn hierarchy_errors_say_what_went_wrong() {
    assert_eq!(BvhError::Empty.message(), "a hierarchy cannot be built of no shape");
    assert_eq!(
        BvhError::Unbounded.message(),
        "a shape without a bounding box cannot be put in a hierarchy"
    );
    assert_ne!(BvhError::Empty, BvhError::Unbounded);
}

#[test]
fn hierarchy_node_culls_by_its_box() {
    let shapes = scene(5, 2);
    let far = pathtracer::aabb::AABB::new(v3(100.0, 100.0, 100.0), v3(101.0, 101.0, 101.0));
    let node = BVHNode::new(shapes[0].clone(), shapes[1].clone(), far);
    let through = if let Hittable::Sphere(s) = &*shapes[0] {
        Ray::new(s.center.minus(v3(0.0, 0.0, 50.0)), v3(0.0, 0.0, 1.0), sc(0.0))
    } else {
        panic!("not a sphere")
    };
    assert!(shapes[0].hit(&through, sc(0.001), Scalar::infinity()).is_some());
    assert!(node.hit(&through, sc(0.001), Scalar::infinity()).is_none());
    assert_eq!(node.bounding_box(sc(0.0), sc(1.0)).unwrap().min.x.raw, sc(100.0).raw);
}

#[test]
fn boxes_are_compared_along_an_axis() {
    let a = Hittable::Sphere(Sphere::new(v3(0.0, 5.0, -3.0), sc(1.0), material(1)));
    let b = Arc::new(Hittable::Sphere(Sphere::new(v3(2.0, 1.0, -3.0), sc(1.0), material(2))));
    assert!(a.box_compare(&b, 0));
    assert!(!a.box_compare(&b, 1));
    assert!(!a.box_compare(&b, 2));
    assert!(a.box_x_compare(&b));
    assert!(!a.box_y_compare(&b));
    assert!(!a.box_z_compare(&b));
}

#[test]
fn hierarchy_over_boxes_and_rectangles() {
    let mut list = HittableList::new();
    for i in 0..4 {
        for j in 0..4 {
            let p0 = v3(i as f64 * 2.0, 0.0, j as f64 * 2.0);
            let p1 = v3(i as f64 * 2.0 + 1.0, 1.0 + (i + j) as f64 * 0.25, j as f64 * 2.0 + 1.0);
            list.add(Arc::new(Hittable::Box(SolidBox::new(p0, p1, material(i * 4 + j)))));
        }
    }
    list.add(Arc::new(Hittable::XYRect(XYRect::new(material(99), sc(0.0), sc(8.0), sc(0.0), sc(8.0), sc(9.0)))));
    let shapes: Vec<Arc<Hittable>> = list.objects.clone();
    let tree = BVHNode::from_list(list, sc(0.0), sc(1.0)).unwrap();
    let mut state = 11u64;
    for _ in 0..300 {
        let ray = Ray::new(
            v3(next(&mut state) * 8.0, 6.0, next(&mut state) * 8.0),
            v3(next(&mut state) - 0.5, -1.0, next(&mut state) - 0.5),
            sc(0.0),
        );
        let got = tree.hit(&ray, sc(0.001), Scalar::infinity()).map(|r| r.t.raw);
        let want = brute_force(&shapes, &ray, sc(0.001), Scalar::infinity()).map(|r| r.0);
        assert_eq!(got, want);
    }
}

#[test]
fn pixel_text_is_three_decimals() {
    assert_eq!(Pixel::new(0, 7, 255).to_text(), b"0 7 255".to_vec());
    assert_eq!(Pixel::new(10, 100, 99).to_text(), b"10 100 99".to_vec());
    let mut out = b"x".to_vec();
    Pixel::new(1, 2, 3).write_text(&mut out);
    assert_eq!(out, b"x1 2 3".to_vec());
}

#[test]
fn image_is_written_as_header_and_lines() {
    let mut image = Image::new(3, 2, 255);
    assert_eq!(image.width, 3);
    assert_eq!(image.height, 2);
    assert_eq!(image.max_value, 255);
    assert!(image.data.is_empty());
    for k in 0..6u8 {
        image.data.push(Pixel::new(k, 10 * k, 255 - k));
    }
    let text = String::from_utf8(image.to_ppm()).unwrap();
    assert_eq!(
        text,
        "P3\n3 2\n255\n0 0 255 1 10 254 2 20 253 \n3 30 252 4 40 251 5 50 250 \n"
    );
    let lines: Vec<&str> = text.split('\n').collect();
    assert_eq!(lines.len(), 3 + 2 + 1);
    assert_eq!(lines[5], "");
    for line in &lines[3..5] {
        assert_eq!(line.split_whitespace().count(), 3 * 3);
    }
}

#[test]
fn image_sizes_from_one_to_many() {
    for (w, h) in [(1u32, 1u32), (1, 5), (5, 1), (4, 3), (7, 7)] {
        let mut image = Image::new(w, h, 255);
        for k in 0..(w * h) {
            image.data.push(Pixel::new((k % 256) as u8, 0, 0));
        }
        let text = String::from_utf8(image.to_ppm()).unwrap();
        let header = format!("P3\n{} {}\n255\n", w, h);
        assert!(text.starts_with(&header));
        let body = &text[header.len()..];
        assert!(body.ends_with('\n'));
        let rows: Vec<&str> = body[..body.len() - 1].split('\n').collect();
        assert_eq!(rows.len(), h as usize);
        for row in rows {
            assert_eq!(row.split_whitespace().count(), 3 * w as usize);
        }
    }
}

#[test]
fn image_without_pixels_is_its_header() {
    let image = Image::new(4, 0, 200);
    assert_eq!(image.to_ppm(), b"P3\n4 0\n200\n".to_vec());
    let mut no_width = Image::new(0, 3, 9);
    no_width.data.push(Pixel::new(1, 2, 3));
    assert_eq!(no_width.to_ppm(), b"P3\n0 3\n9\n1 2 3 ".to_vec());
    let mut partial = Image::new(2, 2, 255);
    for _ in 0..3 {
        partial.data.push(Pixel::new(9, 9, 9));
    }
    assert_eq!(partial.to_ppm(), b"P3\n2 2\n255\n9 9 9 9 9 9 \n9 9 9 ".to_vec());
}

#[test]
fn rows_are_shared_out_in_blocks() {
    assert_eq!(row_range(0, 7, 800), (0, 115));
    assert_eq!(row_range(1, 7, 800), (115, 230));
    assert_eq!(row_range(6, 7, 800), (690, 800));
    assert_eq!(row_range(0, 1, 5), (0, 5));
    assert_eq!(row_range(2, 4, 2), (2, 2));
    assert_eq!(row_range(3, 4, 2), (2, 2));
    assert_eq!(row_range(0, 3, 0), (0, 0));
    for (workers, height) in [(1u32, 1u32), (7, 800), (7, 3), (4, 10), (3, 9), (16, 17), (u32::MAX, u32::MAX)] {
        let mut next_start = 0;
        let sample = if workers > 100 { 5 } else { workers };
        for w in 0..sample {
            let (start, end) = row_range(w, workers, height);
            assert_eq!(start, next_start);
            assert!(start <= end && end <= height);
            next_start = end;
        }
        if sample == workers {
            assert_eq!(next_start, height);
        }
        assert_eq!(row_range(workers - 1, workers, height).1, height);
    }
}

#[test]
fn colour_sums_become_bytes() {
    assert_eq!(byte_of(sc(0.0), 10), 0);
    assert_eq!(byte_of(sc(10.0), 10), 255);
    assert_eq!(byte_of(sc(1000.0), 10), 255);
    assert_eq!(byte_of(sc(-3.0), 10), 0);
    // a mean of 0.25 has the square root 0.5: byte 128
    assert_eq!(byte_of(sc(2.5), 10), 127);
    assert_eq!(byte_of(sc(0.25), 1), 128);
    // no sample at all: the mean saturates
    assert_eq!(byte_of(sc(1.0), 0), 255);
    assert_eq!(byte_of(sc(0.0), 0), 0);
    let p = pixel_of(v3(0.0, 0.25, 4.0), 1);
    assert_eq!((p.r, p.g, p.b), (0, 128, 255));
}

#[test]
fn blocks_are_joined_in_order() {
    let parts = vec![
        vec![Pixel::new(1, 1, 1), Pixel::new(2, 2, 2)],
        vec![],
        vec![Pixel::new(3, 3, 3)],
    ];
    let all = merge(&parts);
    assert_eq!(all.len(), 3);
    assert_eq!((all[0].r, all[1].r, all[2].r), (1, 2, 3));
    assert!(merge(&vec![]).is_empty());
}

#[test]
fn a_lit_wall_is_rendered_white() {
    let light = Arc::new(Material::DiffuseLight(DiffuseLight::new(v3(1.0, 1.0, 1.0))));
    let world = Hittable::XYRect(XYRect::new(light, sc(-100.0), sc(100.0), sc(-100.0), sc(100.0), sc(-5.0)));
    let cam = Camera::new(
        v3(0.0, 0.0, 0.0),
        v3(0.0, 0.0, -1.0),
        v3(0.0, 1.0, 0.0),
        sc(40.0),
        sc(1.0),
        sc(0.0),
        sc(1.0),
        sc(0.0),
        sc(1.0),
    );
    let black = v3(0.0, 0.0, 0.0);
    let p = sample_pixel(1, 2, 4, 4, &cam, &world, black, 8, 10);
    assert_eq!((p.r, p.g, p.b), (255, 255, 255));
    let none = sample_pixel(1, 2, 4, 4, &cam, &world, black, 0, 10);
    assert_eq!((none.r, none.g, none.b), (0, 0, 0));
    let mut parts = Vec::new();
    for worker in 0..3 {
        let rows = render_rows(worker, 3, 4, 5, &cam, &world, black, 2, 5);
        let (start, end) = row_range(worker, 3, 5);
        assert_eq!(rows.len(), ((end - start) * 4) as usize);
        parts.push(rows);
    }
    let pixels = merge(&parts);
    assert_eq!(pixels.len(), 20);
    assert!(pixels.iter().all(|p| p.r == 255 && p.g == 255 && p.b == 255));
    let mut image = Image::new(4, 5, 255);
    image.data = pixels;
    let text = String::from_utf8(image.to_ppm()).unwrap();
    assert_eq!(text.matches('\n').count(), 3 + 5);
}

#[test]
fn the_sky_is_rendered_by_its_colour() {
    let world = Hittable::List(HittableList::new());
    let cam = Camera::new(
        v3(0.0, 0.0, 0.0),
        v3(0.0, 0.0, -1.0),
        v3(0.0, 1.0, 0.0),
        sc(40.0),
        sc(1.0),
        sc(0.0),
        sc(1.0),
        sc(0.0),
        sc(1.0),
    );
    let rows = render_rows(0, 1, 2, 2, &cam, &world, v3(0.25, 1.0, 0.0), 4, 5);
    assert_eq!(rows.len(), 4);
    for p in rows {
        assert_eq!((p.r, p.g, p.b), (128, 255, 0));
    }
}

use aabb_ray::Point3;
use aabb_ray::Ray;
use aabb_ray::Vector3;
use aabb_ray::AABB;

#[test]
fn construction_stores_coordinates_verbatim() {
    let p = Point3::new(1, 2, 3);
    assert_eq!((p.x, p.y, p.z), (1, 2, 3));
    let v = Vector3::new(4, 5, 6);
    assert_eq!((v.x, v.y, v.z), (4, 5, 6));
    let b = AABB::new(-1, -2, -3, 4, 5, 6);
    assert_eq!((b.min.x, b.min.y, b.min.z), (-1, -2, -3));
    assert_eq!((b.max.x, b.max.y, b.max.z), (4, 5, 6));
    let r = Ray::new(1, 2, 3, 4, 5, 6);
    assert_eq!((r.origin.x, r.origin.y, r.origin.z), (1, 2, 3));
    assert_eq!((r.direction.x, r.direction.y, r.direction.z), (4, 5, 6));
}

#[test]
fn overlap_is_symmetric() {
    let pairs = [
        (AABB::new(0, 0, 0, 1, 1, 1), AABB::new(1, 0, 0, 2, 1, 1)),
        (AABB::new(0, 0, 0, 1, 1, 1), AABB::new(2, 0, 0, 3, 1, 1)),
        (AABB::new(-5, -5, -5, 5, 5, 5), AABB::new(-1, -1, -1, 1, 1, 1)),
        (AABB::new(5, 0, 0, 1, 1, 1), AABB::new(0, 0, 0, 10, 1, 1)),
    ];
    for (a, b) in pairs.iter() {
        assert_eq!(a.intersects(b), b.intersects(a));
    }
}

#[test]
fn box_overlaps_itself() {
    let a = AABB::new(0, 0, 0, 1, 1, 1);
    assert!(a.intersects(&a));
    let b = AABB::new(-7, -7, -7, -7, -7, -7);
    assert!(b.intersects(&b));
}

#[test]
fn touching_faces_intersect() {
    let a = AABB::new(0, 0, 0, 1, 1, 1);
    let b = AABB::new(1, 0, 0, 2, 1, 1);
    assert!(a.intersects(&b));
}

#[test]
fn separated_boxes_do_not_intersect() {
    let a = AABB::new(0, 0, 0, 1, 1, 1);
    let b = AABB::new(2, 0, 0, 3, 1, 1);
    assert!(!a.intersects(&b));
}

#[test]
fn inverted_box_follows_the_separating_axis_formula() {
    // min > max on the x axis: geometrically empty, but the overlap
    // answer is still the deterministic separating-axis comparison.
    let inverted = AABB::new(5, 0, 0, 1, 1, 1);
    let wide = AABB::new(0, 0, 0, 10, 1, 1);
    assert!(inverted.intersects(&wide));
    let low = AABB::new(0, 0, 0, 0, 1, 1);
    assert!(!inverted.intersects(&low));
}

#[test]
fn overlap_at_coordinate_extremes() {
    let a = AABB::new(i32::MIN, i32::MIN, i32::MIN, 0, 0, 0);
    let b = AABB::new(0, 0, 0, i32::MAX, i32::MAX, i32::MAX);
    assert!(a.intersects(&b));
    let c = AABB::new(1, 1, 1, i32::MAX, i32::MAX, i32::MAX);
    assert!(!a.intersects(&c));
}

#[test]
fn direction_magnitude_is_irrelevant() {
    let fast = Ray::new(0, 0, 0, 5, 0, 0);
    let slow = Ray::new(0, 0, 0, 1, 0, 0);
    let boxes = [
        AABB::new(1, -1, -1, 3, 1, 1),
        AABB::new(-3, -1, -1, -1, 1, 1),
        AABB::new(1, 2, 2, 3, 4, 4),
        AABB::new(-1, -1, -1, 1, 1, 1),
    ];
    let expected = [true, false, false, true];
    for (b, want) in boxes.iter().zip(expected.iter()) {
        assert_eq!(fast.intersects_aabb(b), *want);
        assert_eq!(slow.intersects_aabb(b), *want);
    }
}

#[test]
fn ray_through_box_center_hits() {
    let r = Ray::new(-5, 0, 0, 1, 0, 0);
    let b = AABB::new(-1, -1, -1, 1, 1, 1);
    assert!(r.intersects_aabb(&b));
}

#[test]
fn ray_pointing_away_misses() {
    let r = Ray::new(-5, 0, 0, -1, 0, 0);
    let b = AABB::new(-1, -1, -1, 1, 1, 1);
    assert!(!r.intersects_aabb(&b));
}

#[test]
fn origin_inside_box_hits() {
    let r = Ray::new(0, 0, 0, 1, 0, 0);
    let b = AABB::new(-1, -1, -1, 1, 1, 1);
    assert!(r.intersects_aabb(&b));
}

#[test]
fn parallel_offset_ray_misses() {
    let b = AABB::new(-1, -1, -1, 1, 1, 1);
    // Parallel to the x axis, offset above the box on y: a miss from
    // every starting point along the ray's line, in either heading.
    assert!(!Ray::new(0, 5, 0, 1, 0, 0).intersects_aabb(&b));
    assert!(!Ray::new(-100, 5, 0, 1, 0, 0).intersects_aabb(&b));
    assert!(!Ray::new(100, 5, 0, 1, 0, 0).intersects_aabb(&b));
    assert!(!Ray::new(0, 5, 0, 3, 0, 0).intersects_aabb(&b));
    assert!(!Ray::new(0, 5, 0, -1, 0, 0).intersects_aabb(&b));
}

#[test]
fn zero_direction_never_hits() {
    let r = Ray::new(0, 0, 0, 0, 0, 0);
    let around_origin = AABB::new(-1, -1, -1, 1, 1, 1);
    assert!(!r.intersects_aabb(&around_origin));
    let elsewhere = AABB::new(2, 2, 2, 3, 3, 3);
    assert!(!r.intersects_aabb(&elsewhere));
}

#[test]
fn grazing_a_parallel_face_reports_a_miss() {
    let b = AABB::new(-1, -1, -1, 1, 1, 1);
    // Parallel to the x axis with the origin exactly on the y = 1 face.
    assert!(!Ray::new(-5, 1, 0, 1, 0, 0).intersects_aabb(&b));
    // Likewise on the minimum face.
    assert!(!Ray::new(-5, -1, 0, 1, 0, 0).intersects_aabb(&b));
    // One step inside the face, the same ray hits.
    assert!(Ray::new(-5, 0, 0, 1, 0, 0).intersects_aabb(&b));
}

#[test]
fn origin_on_face_heading_away_still_touches() {
    let b = AABB::new(-1, -1, -1, 1, 1, 1);
    // The exit distance is exactly zero: the origin itself is the touch.
    assert!(Ray::new(1, 0, 0, 1, 0, 0).intersects_aabb(&b));
    // From strictly outside, heading away, the box is behind the ray.
    assert!(!Ray::new(2, 0, 0, 1, 0, 0).intersects_aabb(&b));
}

#[test]
fn negative_direction_hits_box_behind() {
    let b = AABB::new(2, -1, -1, 3, 1, 1);
    assert!(Ray::new(5, 0, 0, -1, 0, 0).intersects_aabb(&b));
    assert!(!Ray::new(5, 0, 0, 1, 0, 0).intersects_aabb(&b));
}

#[test]
fn diagonal_rays_use_exact_fractions() {
    // Along (1, 1, 1) the parameter window of a unit box is sharp.
    let r = Ray::new(0, 0, 0, 1, 1, 1);
    assert!(r.intersects_aabb(&AABB::new(2, 2, 2, 3, 3, 3)));
    assert!(!r.intersects_aabb(&AABB::new(2, 2, 4, 3, 3, 5)));
    // Along (2, 1, 0) the entry and exit distances are proper fractions.
    let s = Ray::new(0, 0, 0, 2, 1, 0);
    assert!(s.intersects_aabb(&AABB::new(1, 1, -1, 3, 3, 1)));
    assert!(!s.intersects_aabb(&AABB::new(1, 2, -1, 3, 3, 1)));
}

#[test]
fn ray_at_coordinate_extremes() {
    let far = AABB::new(i32::MAX - 1, -1, -1, i32::MAX, 1, 1);
    assert!(Ray::new(i32::MIN, 0, 0, 1, 0, 0).intersects_aabb(&far));
    assert!(!Ray::new(i32::MIN, 0, 0, -1, 0, 0).intersects_aabb(&far));
}

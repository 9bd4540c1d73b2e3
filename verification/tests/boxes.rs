use physics_core::components::{PhysicsError, AABB};
use physics_core::fixed::Fixed;
use physics_core::vector::Vec3;

fn v(x: i64, y: i64, z: i64) -> Vec3 {
    Vec3::from_raw(x, y, z)
}

fn cube(cx: i64, cy: i64, cz: i64, half: i64) -> AABB {
    AABB::new(v(cx, cy, cz), v(half, half, half)).unwrap()
}

#[test]
fn new_box_reaches_half_extents_to_either_side() {
    let b = AABB::new(v(0, -1_000_000, 0), v(25_000_000, 1_000_000, 25_000_000)).unwrap();
    assert_eq!(b.min, v(-25_000_000, -2_000_000, -25_000_000));
    assert_eq!(b.max, v(25_000_000, 0, 25_000_000));
    assert_eq!(b.half_extents, v(25_000_000, 1_000_000, 25_000_000));
}

#[test]
fn new_box_may_be_flat() {
    let b = AABB::new(v(1, 2, 3), v(0, 0, 0)).unwrap();
    assert_eq!(b.min, v(1, 2, 3));
    assert_eq!(b.max, v(1, 2, 3));
}

#[test]
fn new_box_keeps_max_above_min() {
    let b = AABB::new(v(-7_000_000, 3, 12), v(2, 0, 5_000_000)).unwrap();
    assert!(b.max.x.raw() >= b.min.x.raw());
    assert!(b.max.y.raw() >= b.min.y.raw());
    assert!(b.max.z.raw() >= b.min.z.raw());
}

#[test]
fn new_box_rejects_negative_half_extent() {
    assert_eq!(AABB::new(v(0, 0, 0), v(-1, 1, 1)), Err(PhysicsError::NegativeExtent));
    assert_eq!(AABB::new(v(0, 0, 0), v(1, -1, 1)), Err(PhysicsError::NegativeExtent));
    assert_eq!(AABB::new(v(0, 0, 0), v(1, 1, -1)), Err(PhysicsError::NegativeExtent));
}

#[test]
fn new_box_reports_corners_out_of_range() {
    assert_eq!(AABB::new(v(i64::MAX, 0, 0), v(1, 0, 0)), Err(PhysicsError::Overflow));
    assert_eq!(AABB::new(v(0, i64::MIN, 0), v(0, 1, 0)), Err(PhysicsError::Overflow));
    // A negative half-extent is reported before anything else.
    assert_eq!(AABB::new(v(i64::MAX, 0, 0), v(1, -1, 0)), Err(PhysicsError::NegativeExtent));
}

#[test]
fn update_moves_both_corners_and_keeps_half_extents() {
    let mut b = cube(0, 0, 0, 500_000);
    assert_eq!(b.update(v(1_000_000, -2_000_000, 3_000_000)), Ok(()));
    assert_eq!(b.min, v(500_000, -2_500_000, 2_500_000));
    assert_eq!(b.max, v(1_500_000, -1_500_000, 3_500_000));
    assert_eq!(b.half_extents, v(500_000, 500_000, 500_000));
}

#[test]
fn update_to_same_center_is_idempotent() {
    let center = v(123_456, -3_500_000, 77);
    let fresh = AABB::new(center, v(250_000, 1, 9_000_000)).unwrap();
    let mut b = fresh;
    assert_eq!(b.update(center), Ok(()));
    assert_eq!(b, fresh);
    assert_eq!(b.update(center), Ok(()));
    assert_eq!(b, fresh);
}

#[test]
fn update_out_of_range_changes_nothing() {
    let mut b = cube(0, 0, 0, 500_000);
    let before = b;
    assert_eq!(b.update(v(0, 0, i64::MAX)), Err(PhysicsError::Overflow));
    assert_eq!(b, before);
}

#[test]
fn boxes_that_touch_intersect() {
    let a = cube(0, 0, 0, 500_000);
    let b = cube(1_000_000, 0, 0, 500_000);
    assert!(a.intersects(&b));
    let c = cube(1_000_001, 0, 0, 500_000);
    assert!(!a.intersects(&c));
}

#[test]
fn boxes_must_meet_on_every_axis() {
    let a = cube(0, 0, 0, 1_000_000);
    assert!(a.intersects(&cube(1_500_000, 1_500_000, 1_500_000, 1_000_000)));
    assert!(!a.intersects(&cube(1_500_000, 1_500_000, 2_500_000, 1_000_000)));
    assert!(!a.intersects(&cube(1_500_000, -2_500_000, 1_500_000, 1_000_000)));
    assert!(!a.intersects(&cube(-2_500_000, 1_500_000, 1_500_000, 1_000_000)));
}

#[test]
fn intersects_is_symmetric() {
    let boxes = [
        cube(0, 0, 0, 1_000_000),
        cube(1_500_000, 0, 0, 1_000_000),
        cube(2_000_000, 0, 0, 1_000_000),
        cube(2_000_001, 0, 0, 1_000_000),
        cube(0, -3_000_000, 500_000, 250_000),
        AABB::new(v(0, -1_000_000, 0), v(25_000_000, 1_000_000, 25_000_000)).unwrap(),
        AABB::new(v(7, 7, 7), v(0, 0, 0)).unwrap(),
    ];
    for a in boxes.iter() {
        for b in boxes.iter() {
            assert_eq!(a.intersects(b), b.intersects(a));
        }
    }
}

#[test]
fn overlap_is_the_smaller_reach_on_each_axis() {
    let a = cube(0, 0, 0, 1_000_000);
    let b = cube(1_500_000, 0, 3_000_000, 1_000_000);
    assert_eq!(a.overlap(&b), Some(v(500_000, 2_000_000, 0)));
    assert_eq!(b.overlap(&a), Some(v(500_000, 2_000_000, 0)));
}

#[test]
fn overlap_of_touching_boxes_is_zero() {
    let a = cube(0, 0, 0, 500_000);
    let b = cube(1_000_000, 0, 0, 500_000);
    assert!(a.intersects(&b));
    assert_eq!(a.overlap(&b), Some(v(0, 1_000_000, 1_000_000)));
}

#[test]
fn overlap_out_of_range_is_none() {
    let wide = AABB {
        min: v(i64::MIN, 0, 0),
        max: v(i64::MAX, 1, 1),
        half_extents: v(i64::MAX, 0, 0),
    };
    assert_eq!(wide.overlap(&wide), None);
}

#[test]
fn push_along_an_axis_is_the_overlap_on_that_axis() {
    let a = cube(0, 0, 0, 1_000_000);
    let b = cube(1_500_000, 0, 0, 1_000_000);
    assert_eq!(
        a.overlap_push_in_direction(&b, v(-1_000_000, 0, 0)),
        Ok(v(-500_000, 0, 0))
    );
    assert_eq!(
        a.overlap_push_in_direction(&b, v(0, 1_000_000, 0)),
        Ok(v(0, 2_000_000, 0))
    );
    assert_eq!(
        a.overlap_push_in_direction(&b, v(0, 0, -1_000_000)),
        Ok(v(0, 0, -2_000_000))
    );
}

#[test]
fn push_brings_the_direction_to_unit_length() {
    let a = cube(0, 0, 0, 1_000_000);
    let b = cube(1_500_000, 0, 0, 1_000_000);
    assert_eq!(
        a.overlap_push_in_direction(&b, v(-2_000_000, 0, 0)),
        Ok(v(-500_000, 0, 0))
    );
    assert_eq!(a.overlap_push_in_direction(&b, v(-1, 0, 0)), Ok(v(-500_000, 0, 0)));
}

#[test]
fn push_along_a_slanted_direction_takes_the_least_projection() {
    let a = cube(0, 0, 0, 1_000_000);
    let b = cube(1_500_000, 0, 0, 1_000_000);
    // Unit direction (0.6, 0.8, 0); overlaps (0.5, 2, 2). The projections
    // are 0.5 / 0.6 = 0.833333 and 2 / 0.8 = 2.5; z does not count.
    assert_eq!(
        a.overlap_push_in_direction(&b, v(3_000_000, 4_000_000, 0)),
        Ok(v(499_999, 666_666, 0))
    );
}

#[test]
fn push_skips_axes_without_overlap() {
    let a = cube(0, 0, 0, 1_000_000);
    // No overlap on x, overlap 2 on y and z.
    let b = cube(5_000_000, 0, 0, 1_000_000);
    assert_eq!(a.overlap_push_in_direction(&b, v(1_000_000, 0, 0)), Ok(v(0, 0, 0)));
    // Unit direction (0.6, 0.8, 0): only y counts, 2 / 0.8 = 2.5.
    assert_eq!(
        a.overlap_push_in_direction(&b, v(3_000_000, 4_000_000, 0)),
        Ok(v(1_500_000, 2_000_000, 0))
    );
}

#[test]
fn push_rejects_the_zero_direction() {
    let a = cube(0, 0, 0, 1_000_000);
    let b = cube(1_500_000, 0, 0, 1_000_000);
    assert_eq!(a.overlap_push_in_direction(&b, v(0, 0, 0)), Err(PhysicsError::ZeroDirection));
}

#[test]
fn push_reports_a_direction_too_long_to_measure() {
    let a = cube(0, 0, 0, 1_000_000);
    let b = cube(1_500_000, 0, 0, 1_000_000);
    assert_eq!(
        a.overlap_push_in_direction(&b, v(i64::MAX, i64::MAX, i64::MAX)),
        Err(PhysicsError::Overflow)
    );
}

#[test]
fn push_undoes_the_overlap_on_its_axis() {
    let center = v(0, 0, 0);
    let mut a = cube(0, 0, 0, 1_000_000);
    let b = cube(1_500_000, 200_000, -300_000, 1_000_000);
    let push = a.overlap_push_in_direction(&b, v(-1_000_000, 0, 0)).unwrap();
    assert_eq!(push, v(-500_000, 0, 0));
    a.update(center.checked_add(push).unwrap()).unwrap();
    let left = a.overlap(&b).unwrap();
    assert_eq!(left.x, Fixed::from_raw(0));
    // The boxes now touch on x, which the test for intersection counts.
    assert_eq!(a.max.x, b.min.x);
    assert!(a.intersects(&b));
}

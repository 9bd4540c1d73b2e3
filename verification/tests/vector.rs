use physics_core::fixed::Fixed;
use physics_core::vector::Vec3;

fn v(x: i64, y: i64, z: i64) -> Vec3 {
    Vec3::from_raw(x, y, z)
}

#[test]
fn constructors_agree() {
    let a = Vec3::new(Fixed::from_raw(1), Fixed::from_raw(2), Fixed::from_raw(3));
    assert_eq!(a, v(1, 2, 3));
    assert_eq!(Vec3::zero(), v(0, 0, 0));
    assert_eq!(a.x.raw(), 1);
    assert_eq!(a.y.raw(), 2);
    assert_eq!(a.z.raw(), 3);
}

#[test]
fn sum_and_difference_work_by_component() {
    let a = v(1_000_000, -2_000_000, 3_000_000);
    let b = v(500_000, 500_000, -500_000);
    assert_eq!(a.checked_add(b), Some(v(1_500_000, -1_500_000, 2_500_000)));
    assert_eq!(a.checked_sub(b), Some(v(500_000, -2_500_000, 3_500_000)));
    assert_eq!(a.checked_neg(), Some(v(-1_000_000, 2_000_000, -3_000_000)));
}

#[test]
fn one_component_out_of_range_spoils_the_vector() {
    let a = v(0, i64::MAX, 0);
    assert_eq!(a.checked_add(v(0, 1, 0)), None);
    assert_eq!(v(0, 0, i64::MIN).checked_neg(), None);
    assert_eq!(v(i64::MIN, 0, 0).checked_sub(v(1, 0, 0)), None);
}

#[test]
fn scaling_rounds_each_component_toward_zero() {
    // (1, -1, 0.5) * 0.333333
    let a = v(1_000_000, -1_000_000, 500_000);
    assert_eq!(a.scaled(Fixed::from_raw(333_333)), Some(v(333_333, -333_333, 166_666)));
    assert_eq!(a.scaled(Fixed::from_raw(0)), Some(v(0, 0, 0)));
}

#[test]
fn dividing_rounds_each_component_toward_zero() {
    let a = v(1_000_000, -1_000_000, 2_000_000);
    assert_eq!(a.divided(Fixed::from_raw(3_000_000)), Some(v(333_333, -333_333, 666_666)));
    assert_eq!(a.divided(Fixed::from_raw(0)), None);
}

#[test]
fn dot_product_is_rounded_once() {
    // Each product is 0.0000005 and would round to zero by itself; the sum
    // of the three is 0.0000015.
    let a = v(500_000, 500_000, 500_000);
    let b = v(1, 1, 1);
    assert_eq!(a.dot(b), Some(Fixed::from_raw(1)));
    // (1, 2, 3) . (4, -5, 6) = 12
    let c = v(1_000_000, 2_000_000, 3_000_000);
    let d = v(4_000_000, -5_000_000, 6_000_000);
    assert_eq!(c.dot(d), Some(Fixed::from_raw(12_000_000)));
}

#[test]
fn dot_product_out_of_range_is_none() {
    let big = v(i64::MIN, i64::MIN, i64::MIN);
    assert_eq!(big.dot(big), None);
    let a = v(i64::MAX, 0, 0);
    assert_eq!(a.dot(v(2_000_000, 0, 0)), None);
    assert_eq!(a.dot(v(1_000_000, 0, 0)), Some(Fixed::from_raw(i64::MAX)));
}

#[test]
fn length_is_rounded_down() {
    assert_eq!(v(3_000_000, 4_000_000, 0).length(), Some(Fixed::from_raw(5_000_000)));
    // |(1, 1, 1)| = 1.7320508...
    assert_eq!(v(1_000_000, 1_000_000, 1_000_000).length(), Some(Fixed::from_raw(1_732_050)));
    assert_eq!(v(0, 0, 0).length(), Some(Fixed::from_raw(0)));
    assert_eq!(v(0, -7, 0).length(), Some(Fixed::from_raw(7)));
}

#[test]
fn length_out_of_range_is_none() {
    assert_eq!(v(i64::MIN, i64::MIN, i64::MIN).length(), None);
    assert_eq!(v(i64::MAX, 0, 0).length(), Some(Fixed::from_raw(i64::MAX)));
}

#[test]
fn normalized_has_unit_length() {
    assert_eq!(v(3_000_000, 4_000_000, 0).normalized(), Some(v(600_000, 800_000, 0)));
    assert_eq!(v(0, -2_500_000, 0).normalized(), Some(v(0, -1_000_000, 0)));
    // (1, 1, 1) / 1.732050 = 0.577350...
    assert_eq!(
        v(1_000_000, 1_000_000, 1_000_000).normalized(),
        Some(v(577_350, 577_350, 577_350))
    );
}

#[test]
fn zero_vector_has_no_direction() {
    assert_eq!(v(0, 0, 0).normalized(), None);
}

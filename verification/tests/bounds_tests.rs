use oxidized::bounds::{Bounds2D, Bounds3D, Limits2D, Limits3D, XLimits, YLimits, ZLimits};
use oxidized::fixed::{add_saturating, half, neg_saturating, saturate, sub_saturating, UNIT};

#[test]
fn limits_hold_their_ends() {
    let x = XLimits::new(2700);
    assert!(x.in_limit(2700));
    assert!(x.in_limit(-2700));
    assert!(x.in_limit(0));
    assert!(!x.in_limit(2701));
    assert!(!x.in_limit(-2701));
    let y = YLimits::new(0);
    assert!(y.in_limit(0));
    assert!(!y.in_limit(1));
    let z = ZLimits::new(-5);
    assert!(!z.in_limit(0));
    assert!(!z.in_limit(-5));
    assert!(!z.in_limit(5));
}

#[test]
fn clip_brings_values_within_the_limit() {
    let x = XLimits::new(2700);
    assert_eq!(x.clip(5000), 2700);
    assert_eq!(x.clip(-5000), -2700);
    assert_eq!(x.clip(1234), 1234);
    assert_eq!(x.clip(2700), 2700);
    assert_eq!(YLimits::new(2000).clip(i32::MIN), -2000);
    assert_eq!(ZLimits::new(7).clip(i32::MAX), 7);
}

#[test]
fn clip_under_a_negative_limit_gives_its_opposite() {
    assert_eq!(XLimits::new(-5).clip(0), 5);
    assert_eq!(XLimits::new(-5).clip(100), 5);
    assert_eq!(XLimits::new(-5).clip(-100), 5);
    assert_eq!(XLimits::new(i32::MIN).clip(3), i32::MAX);
}

#[test]
fn bounds_of_two_and_three_axes() {
    let b = Bounds2D::new(2700, 2000);
    assert_eq!(b.x(), 2700);
    assert_eq!(b.y(), 2000);
    assert!(b.in_bounds(2700, -2000));
    assert!(!b.in_bounds(2701, 0));
    assert!(!b.in_bounds(0, 2001));
    assert!(b.in_x_bound(-2700));
    assert!(!b.in_y_bound(-2001));
    assert_eq!(b.clip(3000, -3000), [2700, -2000]);
    assert_eq!(b.clip(-1, 1), [-1, 1]);
    let l = Limits2D::new(1, 2);
    assert!(l.in_limits(1, 2));
    assert!(!l.in_limits(2, 2));
    assert!(l.in_x_limit(-1));
    assert!(l.in_y_limit(-2));
    assert_eq!(l.clip(9, 9), [1, 2]);
    let c = Bounds3D::new(1, 2, 3);
    assert!(c.in_bounds(1, 2, 3));
    assert!(!c.in_bounds(1, 2, 4));
    assert!(c.in_x_bound(0));
    assert!(c.in_y_bound(2));
    assert!(!c.in_z_bound(-4));
    assert_eq!(c.clip(-9, 9, 2), [-1, 2, 2]);
    let l3 = Limits3D::new(1, 2, 3);
    assert!(l3.in_limits(-1, -2, -3));
    assert!(l3.in_x_limit(1));
    assert!(l3.in_y_limit(2));
    assert!(l3.in_z_limit(3));
    assert_eq!(l3.clip(5, 5, 5), [1, 2, 3]);
}

#[test]
fn scalars_stay_in_their_range() {
    assert_eq!(UNIT, 1000);
    assert_eq!(saturate(5), 5);
    assert_eq!(saturate(i64::MAX), i32::MAX);
    assert_eq!(saturate(i64::MIN), i32::MIN);
    assert_eq!(add_saturating(i32::MAX, 1), i32::MAX);
    assert_eq!(add_saturating(2, 3), 5);
    assert_eq!(sub_saturating(i32::MIN, 1), i32::MIN);
    assert_eq!(sub_saturating(2, 3), -1);
    assert_eq!(neg_saturating(i32::MIN), i32::MAX);
    assert_eq!(neg_saturating(7), -7);
    assert_eq!(half(7), 3);
    assert_eq!(half(-7), -3);
    assert_eq!(half(100), 50);
}

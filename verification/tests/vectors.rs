// The fixed-point vector primitives.

use snooker::vec2::Vec2;

#[test]
fn add_and_sub_are_componentwise() {
    let a = Vec2::new(3, -4);
    let b = Vec2::new(-1, 10);
    assert_eq!(a.add(&b), Vec2::new(2, 6));
    assert_eq!(a.sub(&b), Vec2::new(4, -14));
}

#[test]
fn dot_and_mag_sq_are_exact() {
    let a = Vec2::new(300_000_000, -400_000_000);
    let b = Vec2::new(-100_000_000, 200_000_000);
    assert_eq!(a.dot(&b), -110_000_000_000_000_000i128);
    assert_eq!(a.mag_sq(), 250_000_000_000_000_000i128);
    assert_eq!(Vec2::new(0, 0).mag_sq(), 0);
}

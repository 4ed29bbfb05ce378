// Scenario tests for the collision solver and motion resolver.
// Coordinates are micro-units: 1_000_000 per table unit.

use snooker::collide::{classify, resolve, simulate, Outcome};
use snooker::vec2::Vec2;

#[test]
fn stationary_ball_stays_put() {
    let p0 = Vec2::new(2_340_000, -1_000_000);
    let p1 = Vec2::new(5_000_000, 0);
    let v0 = Vec2::new(0, 0);
    let (f0, f1) = simulate(p0, p1, v0);
    assert_eq!(f0, p0);
    assert_eq!(f1, p1);
}

#[test]
fn target_behind_is_missed() {
    let p0 = Vec2::new(0, 0);
    let p1 = Vec2::new(-10_000_000, 0);
    let v0 = Vec2::new(1_000_000, 0);
    let o = classify(p0, p1, v0);
    assert_eq!(o, Outcome::Miss);
    let (f0, f1) = resolve(p0, p1, v0, &o);
    assert_eq!(f0, Vec2::new(1_250_000, 0));
    assert_eq!(f1, p1);
}

#[test]
fn target_far_off_line_is_missed() {
    let p0 = Vec2::new(0, 0);
    let p1 = Vec2::new(1_000_000, 500_000);
    let v0 = Vec2::new(2_000_000, 0);
    let o = classify(p0, p1, v0);
    assert_eq!(o, Outcome::Miss);
    let (f0, f1) = resolve(p0, p1, v0, &o);
    assert_eq!(f0, Vec2::new(2_500_000, 0));
    assert_eq!(f1, p1);
}

#[test]
fn slow_ball_stops_short_of_distant_target() {
    // One unit of speed rolls 1.25 units; the target sits 10 units away.
    let p0 = Vec2::new(0, 0);
    let p1 = Vec2::new(10_000_000, 0);
    let v0 = Vec2::new(1_000_000, 0);
    let (f0, f1) = simulate(p0, p1, v0);
    assert_eq!(f0, Vec2::new(1_250_000, 0));
    assert_eq!(f1, Vec2::new(10_000_000, 0));
}

#[test]
fn head_on_transfers_all_speed() {
    // Launched straight at a target three units away at speed four: the
    // balls touch when the centres are 0.0615 apart, the moving ball
    // stops dead, and the target takes all the remaining speed.
    let p0 = Vec2::new(0, 0);
    let p1 = Vec2::new(3_000_000, 0);
    let v0 = Vec2::new(4_000_000, 0);
    let o = classify(p0, p1, v0);
    match o {
        Outcome::Hit(c) => {
            assert_eq!(c.contact, Vec2::new(2_938_500, 0));
            assert_eq!(c.speed, 1_649_200);
            assert_eq!(c.v0_after, Vec2::new(0, 0));
            assert_eq!(c.v1_after, Vec2::new(1_649_200, 0));
        }
        Outcome::Miss => panic!("head-on shot must collide"),
    }
    let (f0, f1) = resolve(p0, p1, v0, &o);
    assert_eq!(f0, Vec2::new(2_938_500, 0));
    assert_eq!(f1, Vec2::new(5_061_500, 0));
}

#[test]
fn tangent_trajectory_counts_as_hit() {
    // The target centre sits exactly the contact distance off the
    // trajectory line: a grazing touch, classified as a collision that
    // transfers nothing.
    let p0 = Vec2::new(0, 0);
    let p1 = Vec2::new(1_000_000, 61_500);
    let v0 = Vec2::new(1_000_000, 0);
    let o = classify(p0, p1, v0);
    match o {
        Outcome::Hit(c) => {
            assert_eq!(c.contact, Vec2::new(1_000_000, 0));
            assert_eq!(c.speed, 200_000);
            assert_eq!(c.v0_after, Vec2::new(200_000, 0));
            assert_eq!(c.v1_after, Vec2::new(0, 0));
        }
        Outcome::Miss => panic!("tangency must count as a collision"),
    }
    let (f0, f1) = resolve(p0, p1, v0, &o);
    assert_eq!(f0, Vec2::new(1_250_000, 0));
    assert_eq!(f1, p1);
}

#[test]
fn oblique_hit_splits_velocity_on_the_normal() {
    // The target centre sits 0.0369 units off the line: at contact the
    // normal is the exact 3-4-5 direction (-0.8, -0.6), so every
    // intermediate value is a whole number of micro-units.
    let p0 = Vec2::new(0, 0);
    let p1 = Vec2::new(1_000_000, 36_900);
    let v0 = Vec2::new(1_000_000, 0);
    let o = classify(p0, p1, v0);
    match o {
        Outcome::Hit(c) => {
            assert_eq!(c.contact, Vec2::new(950_800, 0));
            assert_eq!(c.speed, 239_360);
            assert_eq!(c.v1_after, Vec2::new(153_190, 114_892));
            assert_eq!(c.v0_after, Vec2::new(86_170, -114_892));
        }
        Outcome::Miss => panic!("oblique shot must collide"),
    }
    let (f0, f1) = resolve(p0, p1, v0, &o);
    assert_eq!(f0, Vec2::new(1_058_512, -143_615));
    assert_eq!(f1, Vec2::new(1_191_487, 180_515));
}

#[test]
fn touching_balls_collide_immediately() {
    // Centres already exactly the contact distance apart, moving in:
    // contact at travel distance zero.
    let p0 = Vec2::new(0, 0);
    let p1 = Vec2::new(61_500, 0);
    let v0 = Vec2::new(2_000_000, 0);
    let o = classify(p0, p1, v0);
    match o {
        Outcome::Hit(c) => {
            assert_eq!(c.contact, Vec2::new(0, 0));
            assert_eq!(c.speed, 2_000_000);
            assert_eq!(c.v0_after, Vec2::new(0, 0));
            assert_eq!(c.v1_after, Vec2::new(2_000_000, 0));
        }
        Outcome::Miss => panic!("touching balls moving together must collide"),
    }
}

#[test]
fn contact_exactly_at_stopping_point_counts() {
    // maxDist = speed / 0.8 = 2.5 units; the contact point sits exactly
    // 2.5 units out, so the ball arrives with no speed left.
    let p0 = Vec2::new(0, 0);
    let p1 = Vec2::new(2_561_500, 0);
    let v0 = Vec2::new(2_000_000, 0);
    let o = classify(p0, p1, v0);
    match o {
        Outcome::Hit(c) => {
            assert_eq!(c.contact, Vec2::new(2_500_000, 0));
            assert_eq!(c.speed, 0);
            assert_eq!(c.v0_after, Vec2::new(0, 0));
            assert_eq!(c.v1_after, Vec2::new(0, 0));
        }
        Outcome::Miss => panic!("contact at the stopping point must count"),
    }
    let (f0, f1) = resolve(p0, p1, v0, &o);
    assert_eq!(f0, Vec2::new(2_500_000, 0));
    assert_eq!(f1, p1);
}

#[test]
fn negative_coordinates_translate_the_head_on_case() {
    // The head-on scenario shifted three units left and one unit down:
    // the same relative geometry, so the same relative answer.
    let p0 = Vec2::new(-3_000_000, -1_000_000);
    let p1 = Vec2::new(0, -1_000_000);
    let v0 = Vec2::new(4_000_000, 0);
    let (f0, f1) = simulate(p0, p1, v0);
    assert_eq!(f0, Vec2::new(-61_500, -1_000_000));
    assert_eq!(f1, Vec2::new(2_061_500, -1_000_000));
    assert_eq!(snooker::render::format_output(f0.x), "-0.06");
}

#[test]
fn energy_is_preserved_up_to_rounding() {
    // |v0After|^2 + |v1After|^2 == |vBefore|^2 holds exactly in the
    // model; the executable values differ only by the floor rounding of
    // each component, here within one part in ten thousand.
    let p0 = Vec2::new(0, 0);
    let p1 = Vec2::new(1_000_000, 36_900);
    let v0 = Vec2::new(1_000_000, 0);
    match classify(p0, p1, v0) {
        Outcome::Hit(c) => {
            let before = c.speed as i128 * c.speed as i128;
            let after = c.v0_after.x as i128 * c.v0_after.x as i128
                + c.v0_after.y as i128 * c.v0_after.y as i128
                + c.v1_after.x as i128 * c.v1_after.x as i128
                + c.v1_after.y as i128 * c.v1_after.y as i128;
            let diff = (before - after).abs();
            assert!(diff * 10_000 < before, "energy drift too large: {diff}");
        }
        Outcome::Miss => panic!("oblique shot must collide"),
    }
}

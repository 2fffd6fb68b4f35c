use oicana_rules::bullets::{update_bullet, BulletAction, Target};
use oicana_rules::reach::Reach;

#[test]
fn a_bullet_that_reaches_its_target_takes_its_damage_off() {
    let target = Target { health: 100, reach: Reach::Inside };
    assert_eq!(update_bullet(30, Some(target)), BulletAction::Hit { health: 70 });
}

#[test]
fn a_hit_can_take_the_health_below_zero() {
    let target = Target { health: 10, reach: Reach::Inside };
    assert_eq!(update_bullet(25, Some(target)), BulletAction::Hit { health: -15 });
}

#[test]
fn negative_damage_adds_to_the_health() {
    let target = Target { health: 10, reach: Reach::Inside };
    assert_eq!(update_bullet(-5, Some(target)), BulletAction::Hit { health: 15 });
}

#[test]
fn a_bullet_short_of_its_target_flies_on() {
    let far = Target { health: 100, reach: Reach::Outside };
    assert_eq!(update_bullet(30, Some(far)), BulletAction::Advance);
    let edge = Target { health: 100, reach: Reach::OnEdge };
    assert_eq!(update_bullet(30, Some(edge)), BulletAction::Advance);
    let unordered = Target { health: 100, reach: Reach::Unordered };
    assert_eq!(update_bullet(30, Some(unordered)), BulletAction::Advance);
}

#[test]
fn a_bullet_without_target_is_removed() {
    assert_eq!(update_bullet(30, None), BulletAction::Discard);
}

#[test]
fn health_at_the_limits_is_left_alone_by_a_bullet_that_flies_on() {
    let target = Target { health: i32::MIN, reach: Reach::Outside };
    assert_eq!(update_bullet(i32::MAX, Some(target)), BulletAction::Advance);
    let low = Target { health: i32::MIN + 1, reach: Reach::Inside };
    assert_eq!(update_bullet(1, Some(low)), BulletAction::Hit { health: i32::MIN });
}

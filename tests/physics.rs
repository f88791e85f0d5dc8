use bounce::physics::{Arena, Ball};

const PX: i64 = 1_000_000;

fn arena() -> Arena {
    Arena { width: 800 * PX, height: 600 * PX }
}

fn ball(x: i64, y: i64, vx: i64, vy: i64) -> Ball {
    Ball { x, y, vx, vy, radius: 25 * PX, dragged: false }
}

#[test]
fn drop_for_a_tenth_of_a_second() {
    let mut b = Ball::new(100 * PX, 100 * PX, 25 * PX);
    b.integrate(100_000, &arena());
    assert_eq!(b.vy, 47_500_000);
    assert_eq!(b.y, 105 * PX);
    assert_eq!(b.vx, 0);
    assert_eq!(b.x, 100 * PX);
    assert!(!b.dragged);
}

#[test]
fn left_wall_clamps_and_bounces() {
    let mut b = ball(20 * PX, 300 * PX, -50 * PX, 0);
    b.integrate(0, &arena());
    assert_eq!(b.x, 25 * PX);
    assert_eq!(b.vx, 40 * PX);
}

#[test]
fn left_wall_after_one_microsecond() {
    let mut b = ball(20 * PX, 300 * PX, -50 * PX, 0);
    b.integrate(1, &arena());
    assert_eq!(b.x, 25 * PX);
    assert_eq!(b.vx, 39_999_980);
    assert_eq!(b.vy, 499);
}

#[test]
fn gravity_adds_to_vertical_velocity() {
    let mut b = ball(400 * PX, 300 * PX, 0, 0);
    b.integrate(10_000, &arena());
    assert_eq!(b.y, 300 * PX + 50_000);
    assert_eq!(b.vy, 4_975_000);
    assert_eq!(b.x, 400 * PX);
}

#[test]
fn gravity_with_initial_velocity() {
    let mut b = ball(400 * PX, 300 * PX, 0, -100 * PX);
    b.integrate(20_000, &arena());
    // -100 px/s + 500 px/s² · 0.02 s = -90 px/s
    assert_eq!(b.y, 300 * PX - 1_800_000);
    assert_eq!(b.vy, -89_100_000);
}

#[test]
fn right_wall_clamps_and_bounces() {
    let mut b = ball(790 * PX, 300 * PX, 100 * PX, 0);
    b.integrate(0, &arena());
    assert_eq!(b.x, 775 * PX);
    assert_eq!(b.vx, -80 * PX);
}

#[test]
fn floor_clamps_and_bounces() {
    let mut b = ball(400 * PX, 574 * PX, 0, 200 * PX);
    b.integrate(10_000, &arena());
    // vy = 205 px/s, y would be 576.05 px: clamped to 575, vy = -164 px/s, damped by 0.995
    assert_eq!(b.y, 575 * PX);
    assert_eq!(b.vy, -163_180_000);
}

#[test]
fn ceiling_clamps_and_bounces() {
    let mut b = ball(400 * PX, 26 * PX, 0, -500 * PX);
    b.integrate(0, &arena());
    assert_eq!(b.y, 26 * PX);
    b.integrate(10_000, &arena());
    // vy = -495 px/s, y would be 21.05 px: clamped to 25, vy = 396 px/s, damped
    assert_eq!(b.y, 25 * PX);
    assert_eq!(b.vy, 394_020_000);
}

#[test]
fn bounce_rounds_toward_zero() {
    let mut b = ball(10 * PX, 300 * PX, -7, 0);
    b.integrate(0, &arena());
    assert_eq!(b.x, 25 * PX);
    assert_eq!(b.vx, 5);
}

#[test]
fn dragged_ball_does_not_move() {
    let mut b = ball(400 * PX, 300 * PX, 0, 0);
    b.dragged = true;
    b.integrate(100_000, &arena());
    assert_eq!((b.x, b.y, b.vx, b.vy), (400 * PX, 300 * PX, 0, 0));
    assert!(b.dragged);
}

#[test]
fn long_pauses_count_as_two_seconds() {
    let mut a = ball(400 * PX, 100 * PX, 10 * PX, 0);
    let mut b = ball(400 * PX, 100 * PX, 10 * PX, 0);
    a.integrate(5_000_000, &arena());
    b.integrate(2_000_000, &arena());
    assert_eq!((a.x, a.y, a.vx, a.vy), (b.x, b.y, b.vx, b.vy));
    // two seconds of air resistance bring the velocity to zero
    assert_eq!(b.vx, 0);
    assert_eq!(b.vy, 0);
}

#[test]
fn centered_ball_rests_mid_arena() {
    let b = Ball::centered(&arena(), 25 * PX);
    assert_eq!((b.x, b.y), (400 * PX, 300 * PX));
    assert_eq!((b.vx, b.vy, b.radius), (0, 0, 25 * PX));
    assert!(!b.dragged);
}

#[test]
fn division_rounds_toward_zero() {
    assert_eq!(bounce::physics::div_toward_zero(-7, 2), -3);
    assert_eq!(bounce::physics::div_toward_zero(7, 2), 3);
    assert_eq!(bounce::physics::div_toward_zero(-1, 5), 0);
}

use bounce::input::{Control, Event};
use bounce::physics::Arena;
use bounce::raster::{circle_points, to_pixel};
use bounce::sim::Simulation;

const PX: i64 = 1_000_000;

#[test]
fn radius_one_plots_three_pixels() {
    assert_eq!(circle_points(10, 20, 1), vec![(9, 20), (10, 19), (10, 20)]);
}

#[test]
fn disc_counts_match_the_lattice_count() {
    assert_eq!(circle_points(0, 0, 1).len(), 3);
    assert_eq!(circle_points(0, 0, 2).len(), 11);
    assert_eq!(circle_points(0, 0, 3).len(), 27);
    assert_eq!(circle_points(50, 60, 5).len(), 79);
}

#[test]
fn disc_points_lie_in_the_box_and_the_disc() {
    let pts = circle_points(50, 60, 5);
    for &(x, y) in &pts {
        let (dx, dy) = (x - 50, y - 60);
        assert!((-5..5).contains(&dx) && (-5..5).contains(&dy));
        assert!(dx * dx + dy * dy <= 25);
    }
    assert!(pts.contains(&(45, 60)));
    assert!(!pts.contains(&(55, 60)));
}

#[test]
fn empty_disc() {
    assert!(circle_points(10, 10, 0).is_empty());
    assert!(circle_points(10, 10, -3).is_empty());
}

#[test]
fn pixels_round_toward_zero_and_saturate() {
    assert_eq!(to_pixel(1_500_000), 1);
    assert_eq!(to_pixel(-1_500_000), -1);
    assert_eq!(to_pixel(999_999), 0);
    assert_eq!(to_pixel(i64::MAX), i32::MAX);
    assert_eq!(to_pixel(i64::MIN), i32::MIN);
}

#[test]
fn simulation_tick_and_frame() {
    let mut s = Simulation::new(Arena { width: 800 * PX, height: 600 * PX }, 25 * PX);
    assert_eq!((s.ball.x, s.ball.y), (400 * PX, 300 * PX));
    assert_eq!(s.tick(&Vec::new(), 100_000), Control::Continue);
    assert_eq!((s.ball.y, s.ball.vy), (305 * PX, 47_500_000));
    let pts = s.frame_points().unwrap();
    assert_eq!(pts.len(), 1959);
    assert!(pts.contains(&(400, 305)));
}

#[test]
fn simulation_quit_skips_the_step() {
    let mut s = Simulation::new(Arena { width: 800 * PX, height: 600 * PX }, 25 * PX);
    assert_eq!(s.tick(&vec![Event::Quit], 100_000), Control::Quit);
    assert_eq!((s.ball.y, s.ball.vy), (300 * PX, 0));
}

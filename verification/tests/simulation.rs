//! Tests of the flock update, the frame clock and the loop driver,
//! everything in fixed-point steps of 1/1000 of a world unit.

use boids::clock::FrameClock;
use boids::driver::{InputEvent, LoopState, Simulation};
use boids::fixed::{div_trunc, FIXED_ONE};
use boids::flock::{centroid, update_flock, Boid};
use boids::vector2::Vector2;

fn boid_at(x: i64, y: i64) -> Boid {
    Boid::new(Vector2::new(x, y), 8 * FIXED_ONE)
}

#[test]
fn vector_constructors_and_arithmetic() {
    let z = Vector2::zero();
    assert_eq!((z.x, z.y), (0, 0));
    let o = Vector2::one();
    assert_eq!((o.x, o.y), (1000, 1000));
    let r = Vector2::right();
    assert_eq!((r.x, r.y), (1000, 0));
    let l = Vector2::left();
    assert_eq!((l.x, l.y), (-1000, 0));
    let u = Vector2::up();
    assert_eq!((u.x, u.y), (0, 1000));
    let d = Vector2::down();
    assert_eq!((d.x, d.y), (0, -1000));
    let a = Vector2::new(3_500, -2_000);
    let b = Vector2::new(-500, 750);
    let s = a.add(&b);
    assert_eq!((s.x, s.y), (3_000, -1_250));
    let t = a.sub(&b);
    assert_eq!((t.x, t.y), (4_000, -2_750));
}

#[test]
fn truncating_division_rounds_toward_zero() {
    assert_eq!(div_trunc(7, 2), 3);
    assert_eq!(div_trunc(-7, 2), -3);
    assert_eq!(div_trunc(6, 3), 2);
    assert_eq!(div_trunc(-6, 3), -2);
    assert_eq!(div_trunc(1, 2), 0);
    assert_eq!(div_trunc(-1, 2), 0);
}

#[test]
fn centroid_of_three_agents_is_exact() {
    // Positions (1, 2), (3, 4), (5, 9) in world units: mean (3, 5).
    let flock = vec![boid_at(1_000, 2_000), boid_at(3_000, 4_000), boid_at(5_000, 9_000)];
    let c = centroid(&flock);
    assert_eq!((c.x, c.y), (3_000, 5_000));
}

#[test]
fn centroid_is_order_independent() {
    let a = vec![boid_at(1_000, 2_000), boid_at(3_000, 4_000), boid_at(5_000, 9_000)];
    let b = vec![boid_at(5_000, 9_000), boid_at(1_000, 2_000), boid_at(3_000, 4_000)];
    let ca = centroid(&a);
    let cb = centroid(&b);
    assert_eq!((ca.x, ca.y), (cb.x, cb.y));
}

#[test]
fn two_agents_move_by_the_documented_displacement() {
    // Agents at (400, 300) and (100, 100), speed 1, delta-time 0.1:
    // centroid (250, 200); displacements (-15, -10) and (15, 10).
    let mut flock = vec![boid_at(400_000, 300_000), boid_at(100_000, 100_000)];
    let c = centroid(&flock);
    assert_eq!((c.x, c.y), (250_000, 200_000));
    update_flock(&mut flock, 1_000, 100);
    assert_eq!(flock[0].position.x, 385_000);
    assert_eq!(flock[0].position.y, 290_000);
    assert_eq!(flock[1].position.x, 115_000);
    assert_eq!(flock[1].position.y, 110_000);
}

#[test]
fn single_agent_never_moves() {
    let mut flock = vec![boid_at(123_456, -654_321)];
    let c = centroid(&flock);
    assert_eq!((c.x, c.y), (123_456, -654_321));
    for delta_time in [0, 1, 100, 1_000] {
        update_flock(&mut flock, 1_000, delta_time);
        assert_eq!(flock[0].position.x, 123_456);
        assert_eq!(flock[0].position.y, -654_321);
    }
}

#[test]
fn flock_at_centroid_stays_put() {
    let mut flock = vec![
        boid_at(70_000, -30_000),
        boid_at(70_000, -30_000),
        boid_at(70_000, -30_000),
    ];
    update_flock(&mut flock, 1_000, 1_000);
    for b in &flock {
        assert_eq!(b.position.x, 70_000);
        assert_eq!(b.position.y, -30_000);
    }
}

#[test]
fn zero_delta_time_leaves_positions_unchanged() {
    let mut flock = vec![boid_at(400_000, 300_000), boid_at(100_000, 100_000)];
    update_flock(&mut flock, 1_000, 0);
    assert_eq!(flock[0].position.x, 400_000);
    assert_eq!(flock[0].position.y, 300_000);
    assert_eq!(flock[1].position.x, 100_000);
    assert_eq!(flock[1].position.y, 100_000);
}

#[test]
fn empty_flock_update_does_not_fail() {
    let mut flock: Vec<Boid> = vec![];
    update_flock(&mut flock, 1_000, 100);
    assert!(flock.is_empty());
}

#[test]
fn pair_separation_shrinks_every_step() {
    // Speed 1, delta-time 0.5: each step halves the remaining distance.
    let mut flock = vec![boid_at(0, 0), boid_at(1_024_000, 0)];
    let mut last_gap = flock[1].position.x - flock[0].position.x;
    for _ in 0..8 {
        update_flock(&mut flock, 1_000, 500);
        let gap = flock[1].position.x - flock[0].position.x;
        assert!(gap < last_gap, "separation must strictly shrink");
        assert!(gap >= 0, "agents must never cross");
        last_gap = gap;
    }
}

#[test]
fn screen_coordinates_truncate_toward_zero() {
    let b = Boid::new(Vector2::new(1_500, -1_500), 8_000);
    assert_eq!(b.screen_x(), 1);
    assert_eq!(b.screen_y(), -1);
    assert_eq!(b.screen_radius(), 8);
}

#[test]
fn frame_clock_reports_exact_metrics() {
    let mut clock = FrameClock::new(1_000, 1_000);
    let m = clock.tick(1_100);
    assert_eq!(m.delta_time, 100); // 0.1 s
    assert_eq!(m.ms_per_frame, 100_000); // 100.0 ms
    assert_eq!(m.fps, 10_000); // 10.0 frames per second
    assert_eq!(clock.last_counter, 1_100);
}

#[test]
fn frame_clock_tolerates_zero_elapsed_ticks() {
    let mut clock = FrameClock::new(5_000, 1_000);
    let m = clock.tick(5_000);
    assert_eq!(m.delta_time, 0);
    assert_eq!(m.ms_per_frame, 0);
    assert_eq!(m.fps, 0); // sentinel instead of a division by zero
}

fn fresh_simulation() -> Simulation {
    let flock = vec![boid_at(400_000, 300_000), boid_at(100_000, 100_000)];
    Simulation::new(flock, 1_000, 1_000, 1_000)
}

#[test]
fn overlay_starts_off_and_toggles_back_and_forth() {
    let mut sim = fresh_simulation();
    assert!(!sim.overlay_enabled);
    let m = sim.step_frame(&vec![InputEvent::ToggleKeyDown], 1_100);
    assert!(m.is_some());
    assert!(sim.overlay_enabled);
    sim.step_frame(&vec![InputEvent::ToggleKeyDown], 1_200);
    assert!(!sim.overlay_enabled);
}

#[test]
fn unrelated_events_never_touch_the_overlay() {
    let mut sim = fresh_simulation();
    sim.step_frame(&vec![InputEvent::Other, InputEvent::Other], 1_100);
    assert!(!sim.overlay_enabled);
    sim.step_frame(&vec![InputEvent::ToggleKeyDown], 1_200);
    sim.step_frame(&vec![InputEvent::Other], 1_300);
    assert!(sim.overlay_enabled);
}

#[test]
fn quit_and_escape_stop_the_loop() {
    let mut sim = fresh_simulation();
    let m = sim.step_frame(&vec![InputEvent::Quit], 1_100);
    assert!(m.is_none());
    assert!(matches!(sim.status, LoopState::Stopped));

    let mut sim2 = fresh_simulation();
    let m2 = sim2.step_frame(&vec![InputEvent::EscapeKeyDown], 1_100);
    assert!(m2.is_none());
    assert!(matches!(sim2.status, LoopState::Stopped));
}

#[test]
fn events_after_a_quit_are_not_processed() {
    let mut sim = fresh_simulation();
    sim.step_frame(&vec![InputEvent::Quit, InputEvent::ToggleKeyDown], 1_100);
    assert!(matches!(sim.status, LoopState::Stopped));
    assert!(!sim.overlay_enabled);
}

#[test]
fn first_frame_moves_nobody_and_later_frames_use_measured_time() {
    let mut sim = fresh_simulation();
    // No delta-time has been measured yet: the first frame must not move
    // the flock, only measure.
    let m = sim.step_frame(&vec![], 1_100).unwrap();
    assert_eq!(m.delta_time, 100);
    assert_eq!(sim.boids[0].position.x, 400_000);
    assert_eq!(sim.boids[1].position.x, 100_000);
    // The second frame applies the 0.1 s measured by the first.
    sim.step_frame(&vec![], 1_200).unwrap();
    assert_eq!(sim.boids[0].position.x, 385_000);
    assert_eq!(sim.boids[0].position.y, 290_000);
    assert_eq!(sim.boids[1].position.x, 115_000);
    assert_eq!(sim.boids[1].position.y, 110_000);
}

#[test]
fn stalled_frame_gain_is_capped_at_one_whole_step() {
    let flock = vec![boid_at(0, 0), boid_at(100_000, 0)];
    // 5 s between frames at speed 1 would overshoot; the driver caps the
    // step at the centroid itself.
    let mut sim = Simulation::new(flock, 1_000, 1_000, 1_000);
    sim.step_frame(&vec![], 6_000);
    sim.step_frame(&vec![], 11_000);
    assert_eq!(sim.boids[0].position.x, 50_000);
    assert_eq!(sim.boids[1].position.x, 50_000);
}

#[test]
fn translate_moves_by_the_given_delta() {
    let mut b = boid_at(10_000, 20_000);
    b.translate(Vector2::new(-2_500, 4_000));
    assert_eq!(b.position.x, 7_500);
    assert_eq!(b.position.y, 24_000);
    assert_eq!(b.radius, 8_000);
}

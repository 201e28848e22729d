use crossing::car::{car_spawn, spawn_car_spawner, timer_tick};
use crossing::movement::{Direction, Vec3};
use crossing::timer::Timer;
use crossing::world::World;
use crossing::ARMING_DELAY_MS;

#[test]
fn timer_counts_to_target_and_fires_once() {
    let mut t = Timer::from_millis(1000);
    assert_eq!(t.elapsed, 0);
    assert_eq!(t.target, 1000);
    assert!(!t.finished);
    assert!(!t.tick(400));
    assert_eq!(t.elapsed, 400);
    assert!(!t.tick(599));
    assert_eq!(t.elapsed, 999);
    assert!(t.tick(1));
    assert!(t.finished);
    assert_eq!(t.elapsed, 1000);
    // Once finished, further ticks never fire again and change nothing.
    assert!(!t.tick(5000));
    assert_eq!(t.elapsed, 1000);
}

#[test]
fn timer_clamps_overshoot() {
    let mut t = Timer::from_millis(1000);
    assert!(t.tick(2500));
    // The overrun (1500 ms) is dropped, not stored.
    assert_eq!(t.elapsed, 1000);
    assert!(t.finished);
}

fn spawner_world(timings: Vec<u64>, speed: u64) -> (World, usize) {
    let mut world = World::new();
    let id = spawn_car_spawner(
        &mut world,
        &timings,
        Vec3::new(1_024_000_000, 0, 10_000_000),
        Direction::left(),
        speed,
    );
    (world, id)
}

#[test]
fn spawner_initial_arming_delay_is_fixed() {
    let (world, id) = spawner_world(vec![2000, 1000, 3000], 100);
    let rec = world.entity(id);
    let delay = rec.spawn_delay.unwrap().0;
    assert_eq!(delay.target, ARMING_DELAY_MS);
    assert_eq!(delay.target, 2000);
    assert_eq!(rec.car_spawner.as_ref().unwrap().current_timer_index, 0);
}

#[test]
fn non_crossing_tick_produces_no_event_and_keeps_index() {
    let (mut world, id) = spawner_world(vec![2000, 1000, 3000], 100);
    let events = timer_tick(&mut world, 1999);
    assert_eq!(events.len(), 0);
    let rec = world.entity(id);
    assert_eq!(rec.car_spawner.as_ref().unwrap().current_timer_index, 0);
    assert_eq!(rec.spawn_delay.unwrap().0.elapsed, 1999);
    assert!(!rec.spawn_delay.unwrap().0.finished);
}

#[test]
fn spawner_cadence_with_cyclic_delays() {
    // Delays [2.0s, 1.0s, 3.0s], initial arming delay 2.0s, speed 100,
    // direction left; frames of 0.5s.
    let (mut world, id) = spawner_world(vec![2000, 1000, 3000], 100);
    let mut fire_times: Vec<u64> = Vec::new();
    let mut t: u64 = 0;
    for _ in 0..16 {
        t += 500;
        let events = timer_tick(&mut world, 500);
        assert!(events.len() <= 1);
        if events.len() == 1 {
            fire_times.push(t);
            assert_eq!(events[0].entity, id);
            let snap = &events[0].car_spawner;
            assert_eq!(snap.position, Vec3::new(1_024_000_000, 0, 10_000_000));
            assert_eq!(snap.direction, Direction::left());
            assert_eq!(snap.direction.x, -1000);
            assert_eq!(snap.speed, 100);
        }
    }
    // First spawn at t=2.0s, then after 2.0s (index 0), 1.0s (index 1),
    // 3.0s (index 2, cycling back to 0 afterwards).
    assert_eq!(fire_times, vec![2000, 4000, 5000, 8000]);
    let rec = world.entity(id);
    // Four fires consumed arming, 2.0, 1.0, 3.0; index cycled back to 0.
    assert_eq!(rec.car_spawner.as_ref().unwrap().current_timer_index, 1);
    assert_eq!(rec.spawn_delay.unwrap().0.target, 2000);
}

#[test]
fn spawn_event_snapshot_keeps_pre_rearm_index() {
    let (mut world, id) = spawner_world(vec![700, 900], 40);
    let events = timer_tick(&mut world, 2000);
    assert_eq!(events.len(), 1);
    // The request snapshots the index whose delay is being consumed.
    assert_eq!(events[0].car_spawner.current_timer_index, 0);
    let rec = world.entity(id);
    assert_eq!(rec.car_spawner.as_ref().unwrap().current_timer_index, 1);
    assert_eq!(rec.spawn_delay.unwrap().0.target, 700);
}

#[test]
fn edge_trigger_does_not_refire_without_crossing() {
    let (mut world, id) = spawner_world(vec![1000], 100);
    // A huge frame crosses the arming delay once; the overshoot is dropped
    // and must not count toward the next delay.
    let events = timer_tick(&mut world, 50_000);
    assert_eq!(events.len(), 1);
    // The new 1.0s target must be crossed on its own.
    assert_eq!(timer_tick(&mut world, 0).len(), 0);
    assert_eq!(timer_tick(&mut world, 400).len(), 0);
    assert_eq!(timer_tick(&mut world, 400).len(), 0);
    assert_eq!(timer_tick(&mut world, 199).len(), 0);
    let events = timer_tick(&mut world, 1);
    assert_eq!(events.len(), 1);
    assert_eq!(events[0].entity, id);
}

#[test]
fn single_delay_fires_every_cycle_indefinitely() {
    // A one-element delay sequence cycles trivially to itself.
    let (mut world, id) = spawner_world(vec![1500], 100);
    let mut fire_times: Vec<u64> = Vec::new();
    let mut t: u64 = 0;
    for _ in 0..28 {
        t += 500;
        let events = timer_tick(&mut world, 500);
        if events.len() == 1 {
            fire_times.push(t);
            // The index always returns to 0.
            let rec = world.entity(id);
            assert_eq!(rec.car_spawner.as_ref().unwrap().current_timer_index, 0);
            assert_eq!(rec.spawn_delay.unwrap().0.target, 1500);
        }
    }
    // First spawn after the 2.0s arming delay, then every 1.5s.
    assert_eq!(fire_times, vec![2000, 3500, 5000, 6500, 8000, 9500, 11000, 12500, 14000]);
}

#[test]
fn two_spawners_tick_independently() {
    let mut world = World::new();
    let a = spawn_car_spawner(&mut world, &vec![1000], Vec3::zero(), Direction::left(), 50);
    let b = spawn_car_spawner(&mut world, &vec![4000], Vec3::zero(), Direction::right(), 60);
    // Both arm with the fixed 2s delay and fire together at t=2s.
    let events = timer_tick(&mut world, 2000);
    assert_eq!(events.len(), 2);
    assert_eq!(events[0].entity, a);
    assert_eq!(events[1].entity, b);
    // Then their own delays diverge: only `a` fires at t=3s.
    let events = timer_tick(&mut world, 1000);
    assert_eq!(events.len(), 1);
    assert_eq!(events[0].entity, a);
}

#[test]
fn dispatched_events_are_drained_in_one_pass() {
    let (mut world, id) = spawner_world(vec![1000], 100);
    let events = timer_tick(&mut world, 2000);
    assert_eq!(events.len(), 1);
    let len_before = world.len();
    car_spawn(&mut world, &events);
    assert_eq!(world.len(), len_before + 1);
    let car = world.entity(len_before);
    assert_eq!(car.parent, Some(id));
    assert!(car.movable.is_some());
    assert!(car.car.is_some());
    // The obstacle appears at the spawner's position with its direction
    // and speed imprinted.
    assert_eq!(car.position, Vec3::new(1_024_000_000, 0, 10_000_000));
    assert_eq!(car.direction.unwrap().x, -1000);
    assert_eq!(car.direction.unwrap().y, 0);
    assert_eq!(car.speed.unwrap().0, 100);
    // It moves at (-100, 0) units per second.
    crossing::movement::apply_velocity(&mut world, 1000);
    let car = world.entity(len_before);
    assert_eq!(car.position, Vec3::new(1_024_000_000 - 100_000_000, 0, 10_000_000));
}

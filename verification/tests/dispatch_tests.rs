use crossing::car::{
    car_spawn, dispatch_request, spawn_car_spawner, texture_for_roll, timer_tick, CarSettings,
};
use crossing::movement::{Direction, Vec3};
use crossing::tilemap::TextureName;
use crossing::world::World;
use crossing::{frame, frame_ready};

#[test]
fn default_car_settings() {
    let s = CarSettings::default();
    assert_eq!(s.direction.x, -1000);
    assert_eq!(s.direction.y, 0);
    assert_eq!(s.speed, 100);
    assert_eq!(s.texture, TextureName::Car1);
}

#[test]
fn rolls_map_to_the_three_car_appearances() {
    assert_eq!(texture_for_roll(0), TextureName::Car1);
    assert_eq!(texture_for_roll(1), TextureName::Car2);
    assert_eq!(texture_for_roll(2), TextureName::Car3);
}

#[test]
fn dispatch_is_deterministic_per_roll() {
    for (roll, expected_index) in [(0u32, 1usize), (1, 2), (2, 3)] {
        let mut world = World::new();
        let id = spawn_car_spawner(
            &mut world,
            &vec![1000],
            Vec3::new(7, 8, 9),
            Direction::right(),
            55,
        );
        let events = timer_tick(&mut world, 2000);
        assert_eq!(events.len(), 1);
        let car = dispatch_request(&mut world, &events[0], roll);
        let rec = world.entity(car);
        assert_eq!(rec.sprite.unwrap().texture_index, expected_index);
        // A rightward car is mirrored horizontally; parent is the spawner.
        assert!(rec.sprite.unwrap().flip_x);
        assert_eq!(rec.parent, Some(id));
        assert_eq!(rec.position, Vec3::new(7, 8, 9));
        assert_eq!(rec.speed.unwrap().0, 55);
        assert!(rec.movable.is_some());
        assert!(rec.car.is_some());
    }
}

#[test]
fn leftward_cars_are_not_mirrored() {
    let mut world = World::new();
    spawn_car_spawner(&mut world, &vec![1000], Vec3::zero(), Direction::left(), 10);
    let events = timer_tick(&mut world, 2000);
    let car = dispatch_request(&mut world, &events[0], 0);
    assert!(!world.entity(car).sprite.unwrap().flip_x);
}

#[test]
fn random_appearances_stay_in_palette_and_vary() {
    // Spawn many cars through the random path: every appearance must come
    // from the three-car palette, and a uniform choice is (overwhelmingly)
    // sure to produce more than one distinct appearance.
    let mut world = World::new();
    spawn_car_spawner(&mut world, &vec![1000], Vec3::zero(), Direction::left(), 10);
    let mut seen = [false; 4];
    for _ in 0..200 {
        let events = timer_tick(&mut world, 2000);
        assert_eq!(events.len(), 1);
        let before = world.len();
        car_spawn(&mut world, &events);
        let index = world.entity(before).sprite.unwrap().texture_index;
        assert!(index == 1 || index == 2 || index == 3);
        seen[index] = true;
    }
    let distinct = seen.iter().filter(|s| **s).count();
    assert!(distinct >= 2);
}

#[test]
fn frame_runs_scheduler_dispatcher_then_integrator() {
    let mut world = World::new();
    let spawner = spawn_car_spawner(
        &mut world,
        &vec![1500],
        Vec3::new(1_024_000_000, 0, 10_000_000),
        Direction::left(),
        100,
    );
    // Three frames of 0.5s: no spawn yet.
    for _ in 0..3 {
        assert!(frame_ready(&world, 500));
        frame(&mut world, 500);
    }
    assert_eq!(world.len(), 1);
    // The fourth frame crosses the 2s arming delay: one car appears and is
    // integrated within the same frame, moving 50 units left off its
    // spawn position.
    assert!(frame_ready(&world, 500));
    frame(&mut world, 500);
    assert_eq!(world.len(), 2);
    let car = world.entity(1);
    assert_eq!(car.parent, Some(spawner));
    assert_eq!(car.position, Vec3::new(1_024_000_000 - 50_000_000, 0, 10_000_000));
    // Three more frames cross the 1.5s delay: a second car.
    for _ in 0..3 {
        frame(&mut world, 500);
    }
    assert_eq!(world.len(), 3);
}

#[test]
fn frame_ready_rejects_oversized_delta() {
    let world = World::new();
    assert!(frame_ready(&world, 3_600_000));
    assert!(!frame_ready(&world, 3_600_001));
}

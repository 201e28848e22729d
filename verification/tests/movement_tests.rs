use crossing::movement::{apply_velocity, isqrt, Direction, Movable, Speed, Vec3};
use crossing::world::{EntityRec, World};

fn movable_at(position: Vec3, direction: Direction, speed: u64) -> EntityRec {
    let mut rec = EntityRec::empty_at(position);
    rec.direction = Some(direction);
    rec.speed = Some(Speed(speed));
    rec.movable = Some(Movable);
    rec
}

#[test]
fn isqrt_exact_values() {
    assert_eq!(isqrt(0), 0);
    assert_eq!(isqrt(1), 1);
    assert_eq!(isqrt(2), 1);
    assert_eq!(isqrt(3), 1);
    assert_eq!(isqrt(4), 2);
    assert_eq!(isqrt(999_999), 999);
    assert_eq!(isqrt(1_000_000), 1000);
    assert_eq!(isqrt(2_000_000), 1414);
    assert_eq!(isqrt(u64::MAX), 4_294_967_295);
}

#[test]
fn normalization_of_axis_vectors_is_exact() {
    let mut d = Direction::new();
    assert_eq!((d.x, d.y), (0, 0));
    d.set(5, 0);
    assert_eq!((d.x, d.y), (1000, 0));
    d.set(0, -123456);
    assert_eq!((d.x, d.y), (0, -1000));
    assert_eq!(Direction::left().x, -1000);
    assert_eq!(Direction::left().y, 0);
    assert_eq!(Direction::right().x, 1000);
    assert_eq!(Direction::right().y, 0);
}

#[test]
fn normalization_of_pythagorean_vector_is_exact() {
    let mut d = Direction::new();
    d.set(3, 4);
    assert_eq!((d.x, d.y), (600, 800));
    assert_eq!(d.x * d.x + d.y * d.y, 1_000_000);
    d.set(-3000, 4000);
    assert_eq!((d.x, d.y), (-600, 800));
}

#[test]
fn normalization_of_diagonal_is_unit_within_tolerance() {
    let mut d = Direction::new();
    d.set(1, 1);
    assert_eq!((d.x, d.y), (707, 707));
    let mag2 = d.x * d.x + d.y * d.y;
    // Unit magnitude within fixed-point tolerance around 1000^2.
    assert!(mag2 >= 1_000_000 - 4_000);
    assert!(mag2 <= 1_000_000 + 2_000);
    d.set(-1_000_000, 1_000_000);
    assert_eq!((d.x, d.y), (-707, 707));
}

#[test]
fn normalization_of_zero_vector_is_exactly_zero() {
    let mut d = Direction::right();
    d.set(0, 0);
    assert_eq!((d.x, d.y), (0, 0));
    let mut e = Direction::left();
    e.set_xy(0, 0);
    assert_eq!((e.x, e.y), (0, 0));
}

#[test]
fn integrate_half_second_at_speed_100() {
    // A movable entity at (0,0) with direction (1,0) and speed 100 moves
    // to (50,0) over a 0.5s delta: 50_000_000 micro-units.
    let mut world = World::new();
    let id = world.spawn(movable_at(Vec3::zero(), Direction::right(), 100));
    apply_velocity(&mut world, 500);
    let rec = world.entity(id);
    assert_eq!(rec.position, Vec3::new(50_000_000, 0, 0));
}

#[test]
fn integration_is_additive_over_deltas() {
    // integrate(dt1); integrate(dt2) lands exactly where
    // integrate(dt1 + dt2) does.
    let mut d = Direction::new();
    d.set(1, 1);
    let start = Vec3::new(12_345, -9_999, 777);

    let mut split = World::new();
    let id = split.spawn(movable_at(start, d, 321));
    apply_velocity(&mut split, 300);
    apply_velocity(&mut split, 700);

    let mut whole = World::new();
    whole.spawn(movable_at(start, d, 321));
    apply_velocity(&mut whole, 1000);

    assert_eq!(split.entity(id).position, whole.entity(id).position);
}

#[test]
fn integration_leaves_z_and_non_movables_untouched() {
    let mut world = World::new();
    let moving = world.spawn(movable_at(Vec3::new(0, 0, 42), Direction::left(), 10));
    // Direction and speed but no movable tag: not integrated.
    let mut still = EntityRec::empty_at(Vec3::new(5, 6, 7));
    still.direction = Some(Direction::right());
    still.speed = Some(Speed(10));
    let still_id = world.spawn(still);
    apply_velocity(&mut world, 1000);
    assert_eq!(world.entity(moving).position, Vec3::new(-10_000_000, 0, 42));
    assert_eq!(world.entity(still_id).position, Vec3::new(5, 6, 7));
}

#[test]
fn zero_direction_means_no_movement() {
    let mut world = World::new();
    let id = world.spawn(movable_at(Vec3::new(1, 2, 3), Direction::new(), 100));
    apply_velocity(&mut world, 3_600_000);
    assert_eq!(world.entity(id).position, Vec3::new(1, 2, 3));
}

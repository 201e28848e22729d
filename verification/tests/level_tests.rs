use crossing::level::{
    insert_car_lane, insert_end_lane, insert_spawn_lane, spawn_level, Direction, LaneSettings,
    LaneType, LevelSettings,
};
use crossing::movement::Vec3;
use crossing::player::{handle_input, spawn_player};
use crossing::tilemap::{spawn_tile, TextureName};
use crossing::world::{World, CELL_0_X, CELL_0_Y, LEVEL_COLS};

#[test]
fn texture_names_map_to_atlas_cells() {
    assert_eq!(TextureName::Grass.index(), 0);
    assert_eq!(TextureName::Road.index(), 10);
    assert_eq!(TextureName::Car1.index(), 1);
    assert_eq!(TextureName::Car2.index(), 2);
    assert_eq!(TextureName::Car3.index(), 3);
    assert_eq!(TextureName::Duck.index(), 13);
}

#[test]
fn lane_type_labels() {
    assert_eq!(LaneType::Spawn.label(), "SpawnLane");
    assert_eq!(LaneType::Car.label(), "CarLane");
    assert_eq!(LaneType::End.label(), "EndLane");
}

#[test]
fn spawn_tile_records_sprite_and_position() {
    let mut world = World::new();
    let id = spawn_tile(&mut world, &TextureName::Road, &Vec3::new(64_000_000, 0, 0), true);
    let rec = world.entity(id);
    let sprite = rec.sprite.unwrap();
    assert_eq!(sprite.texture_index, 10);
    assert!(sprite.flip_x);
    assert_eq!(rec.position, Vec3::new(64_000_000, 0, 0));
    assert!(rec.parent.is_none());
}

#[test]
fn spawn_lane_holds_a_row_of_grass() {
    let mut world = World::new();
    let id = insert_spawn_lane(&mut world);
    assert_eq!(world.len(), 1 + LEVEL_COLS);
    assert!(world.entity(id).spawn_lane.is_some());
    for c in 0..LEVEL_COLS {
        let tile = world.entity(id + 1 + c);
        assert_eq!(tile.parent, Some(id));
        assert_eq!(tile.sprite.unwrap().texture_index, 0);
        assert_eq!(tile.position.x, (c as i64) * 64_000_000);
        assert_eq!(tile.position.z, 100_000_000);
    }
}

#[test]
fn car_lane_builds_road_and_armed_spawner() {
    let mut world = World::new();
    let id = insert_car_lane(&mut world, 1, &Direction::Left, &vec![800, 1200], 250);
    assert_eq!(world.len(), LEVEL_COLS + 2);
    let lane = world.entity(id);
    assert_eq!(lane.car_lane.unwrap().direction, Direction::Left);
    assert_eq!(lane.position.y, -64_000_000);
    for c in 0..LEVEL_COLS {
        let tile = world.entity(id + 1 + c);
        assert_eq!(tile.parent, Some(id));
        assert_eq!(tile.sprite.unwrap().texture_index, 10);
    }
    let spawner = world.entity(id + LEVEL_COLS + 1);
    assert_eq!(spawner.parent, Some(id));
    let cs = spawner.car_spawner.as_ref().unwrap();
    assert_eq!(cs.current_timer_index, 0);
    assert_eq!(cs.timings, vec![800, 1200]);
    // A leftward lane spawns one tile beyond the right edge.
    assert_eq!(cs.position, Vec3::new(1_024_000_000, 0, 10_000_000));
    assert_eq!(cs.direction.x, -1000);
    assert_eq!(cs.speed, 250);
    assert_eq!(spawner.spawn_delay.unwrap().0.target, 2000);
}

#[test]
fn rightward_lane_spawns_beyond_left_edge() {
    let mut world = World::new();
    let id = insert_car_lane(&mut world, 3, &Direction::Right, &vec![500], 90);
    let cs = world.entity(id + LEVEL_COLS + 1).car_spawner.as_ref().unwrap().clone();
    assert_eq!(cs.position, Vec3::new(-64_000_000, 0, 10_000_000));
    assert_eq!(cs.direction.x, 1000);
}

#[test]
fn end_lane_holds_a_row_of_grass() {
    let mut world = World::new();
    let id = insert_end_lane(&mut world, 5);
    assert_eq!(world.len(), 1 + LEVEL_COLS);
    assert!(world.entity(id).end_lane.is_some());
    assert_eq!(world.entity(id).position.y, -5 * 64_000_000);
}

#[test]
fn spawn_level_configures_one_spawner_per_lane() {
    let mut world = World::new();
    let settings = LevelSettings {
        level: 0,
        lanes: vec![
            LaneSettings { direction: Direction::Left, spawn_delays: vec![2000, 1000, 3000], speed: 100 },
            LaneSettings { direction: Direction::Right, spawn_delays: vec![1500], speed: 200 },
        ],
    };
    spawn_level(&mut world, settings);
    // Lanes root + spawn lane block + car-lanes root + two car lanes +
    // end-lanes root + six end lanes.
    assert_eq!(world.len(), 1 + (1 + 16) + 1 + 2 * 18 + 1 + 6 * 17);

    assert_eq!(world.entity(0).position, Vec3::new(CELL_0_X, CELL_0_Y, -100_000_000));

    // Car lane roots sit at 19 + 18k, their spawners 17 entities later.
    for (k, (delays, speed, dir_x)) in
        [(vec![2000u64, 1000, 3000], 100u64, -1000i64), (vec![1500], 200, 1000)].iter().enumerate()
    {
        let root = 19 + 18 * k;
        let spawner = world.entity(root + 17);
        assert_eq!(spawner.parent, Some(root));
        let cs = spawner.car_spawner.as_ref().unwrap();
        assert_eq!(&cs.timings, delays);
        assert_eq!(cs.speed, *speed);
        assert_eq!(cs.direction.x, *dir_x);
        assert_eq!(cs.current_timer_index, 0);
        assert_eq!(spawner.spawn_delay.unwrap().0.target, 2000);
    }
}

#[test]
fn player_spawns_still_on_top_row() {
    let mut world = World::new();
    let id = spawn_player(&mut world);
    let rec = world.entity(id);
    assert!(rec.player.is_some());
    assert!(rec.movable.is_some());
    assert_eq!(rec.position, Vec3::new(0, CELL_0_Y, 100_000_000));
    assert_eq!(rec.direction.unwrap().x, 0);
    assert_eq!(rec.direction.unwrap().y, 0);
    assert_eq!(rec.speed.unwrap().0, 100);
    assert_eq!(rec.sprite.unwrap().texture_index, 13);
}

#[test]
fn input_steers_only_the_player() {
    let mut world = World::new();
    let player = spawn_player(&mut world);
    let lane = insert_spawn_lane(&mut world);

    // W and D pressed: up-right diagonal, normalized.
    handle_input(&mut world, true, false, true, false);
    let d = world.entity(player).direction.unwrap();
    assert_eq!((d.x, d.y), (707, 707));
    assert!(world.entity(lane).direction.is_none());

    // A alone: exactly left.
    handle_input(&mut world, false, false, false, true);
    let d = world.entity(player).direction.unwrap();
    assert_eq!((d.x, d.y), (-1000, 0));

    // Opposing keys cancel to the zero direction: standing still.
    handle_input(&mut world, true, true, true, true);
    let d = world.entity(player).direction.unwrap();
    assert_eq!((d.x, d.y), (0, 0));
}

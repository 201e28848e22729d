//! Level construction: turning already-decoded lane descriptors into the
//! entities of a level — a spawn lane, one car lane per descriptor (each
//! with its obstacle spawner), and end lanes filling the rest of the grid.
//!
//! Loading and parsing the level file is an external collaborator; this
//! module receives plain lane descriptors.

use crate::car::{spawn_car_spawner, CarSpawnerV, SpawnDelay};
use crate::movement::{Vec3, SPEED_LIMIT};
use crate::tilemap::{spawn_tile, tile_rec, TextureName, SCALED_TILE_SIZE};
use crate::timer::Timer;
use crate::world::{upos, EntityRec, World, CELL_0_X, CELL_0_Y, LEVEL_COLS, LEVEL_ROWS, UNIT};
use vstd::prelude::*;

verus! {

/// Which way a lane's obstacles travel.
#[derive(Clone, Copy, PartialEq, Eq, Structural, Debug)]
pub enum Direction {
    Left,
    Right,
}

/// All levels of the game, in order.
#[derive(Clone, Debug)]
pub struct Levels {
    pub levels: Vec<LevelSettings>,
}

/// One level: its number and its lane descriptors, top to bottom.
#[derive(Clone, Debug)]
pub struct LevelSettings {
    pub level: usize,
    pub lanes: Vec<LaneSettings>,
}

/// One lane descriptor: travel direction, the cyclic sequence of spawn
/// delays in milliseconds, and the speed imprinted on spawned obstacles.
#[derive(Clone, Debug)]
pub struct LaneSettings {
    pub direction: Direction,
    pub spawn_delays: Vec<u64>,
    pub speed: u64,
}

/// The three kinds of lane a level is built from.
#[derive(Clone, Copy, PartialEq, Eq, Structural, Debug)]
pub enum LaneType {
    Spawn,
    Car,
    End,
}

impl LaneType {
    /// A readable name for this lane kind.
    pub fn label(&self) -> (s: &'static str)
        ensures
            s@ == match *self {
                LaneType::Spawn => "SpawnLane"@,
                LaneType::Car => "CarLane"@,
                LaneType::End => "EndLane"@,
            },
    {
        match *self {
            LaneType::Spawn => "SpawnLane",
            LaneType::Car => "CarLane",
            LaneType::End => "EndLane",
        }
    }
}

/// One cell of a lane.
#[derive(Clone, Copy, PartialEq, Eq, Structural, Debug)]
pub struct LaneCell {
    pub idx: usize,
}

/// A lane with its kind and its row index.
#[derive(Clone, Copy, PartialEq, Eq, Structural, Debug)]
pub struct Lane {
    pub lane_type: LaneType,
    pub idx: usize,
}

/// Marker component: the safe lane the player starts on.
#[derive(Clone, Copy, PartialEq, Eq, Structural, Debug)]
pub struct SpawnLane;

/// Component of a car lane: the direction its obstacles travel.
#[derive(Clone, Copy, PartialEq, Eq, Structural, Debug)]
pub struct CarLane {
    pub direction: Direction,
}

/// Marker component: a goal lane past the traffic.
#[derive(Clone, Copy, PartialEq, Eq, Structural, Debug)]
pub struct EndLane;

/// Component of a level root entity: how many lanes the level holds.
#[derive(Clone, Copy, PartialEq, Eq, Structural, Debug)]
pub struct Level {
    pub lanes_amount: usize,
}

/// The unit movement direction a lane direction stands for.
pub open spec fn lane_dir_vec(d: Direction) -> crate::movement::Direction {
    match d {
        Direction::Left => crate::movement::Direction { x: -1000 as i64, y: 0 as i64 },
        Direction::Right => crate::movement::Direction { x: 1000 as i64, y: 0 as i64 },
    }
}

/// Where a lane's spawner drops new obstacles, relative to the lane: one
/// tile beyond the travelled edge, slightly above the road layer.
pub open spec fn lane_spawn_position(d: Direction) -> Vec3 {
    match d {
        Direction::Left => upos(1024, 0, 10),
        Direction::Right => upos(-64, 0, 10),
    }
}

/// The unit movement direction a lane direction stands for.
pub fn direction_vec(d: &Direction) -> (v: crate::movement::Direction)
    ensures
        v == lane_dir_vec(*d),
        v.wf(),
{
    match *d {
        Direction::Left => crate::movement::Direction::left(),
        Direction::Right => crate::movement::Direction::right(),
    }
}

/// Fill one lane with its row of tiles, each a child of the lane entity:
/// tile `c` sits `c` scaled tiles to the right, on render layer
/// `z_units`.
fn spawn_lane_tiles(world: &mut World, lane_entity: usize, texture: TextureName, z_units: i64)
    requires
        old(world).wf(),
        lane_entity < old(world).entities@.len(),
        -1000 <= z_units <= 1000,
    ensures
        final(world).wf(),
        final(world).entities@.len() == old(world).entities@.len() + LEVEL_COLS,
        forall|j: int|
            0 <= j < old(world).entities@.len() ==> final(world).entities@[j] == old(
                world,
            ).entities@[j],
        forall|c: int|
            0 <= c < LEVEL_COLS ==> #[trigger] final(world).entities@[old(world).entities@.len() + c] == (
            EntityRec {
                parent: Some(lane_entity),
                ..tile_rec(texture, upos(64 * c, 0, z_units as int), false)
            }),
{
    let ghost n0 = old(world).entities@.len() as int;
    let mut col: usize = 0;
    while col < LEVEL_COLS
        invariant
            col <= LEVEL_COLS,
            world.wf(),
            lane_entity < n0,
            -1000 <= z_units <= 1000,
            n0 == old(world).entities@.len(),
            world.entities@.len() == n0 + col,
            forall|j: int| 0 <= j < n0 ==> world.entities@[j] == old(world).entities@[j],
            forall|c: int|
                0 <= c < col ==> #[trigger] world.entities@[n0 + c] == (EntityRec {
                    parent: Some(lane_entity),
                    ..tile_rec(texture, upos(64 * c, 0, z_units as int), false)
                }),
        decreases LEVEL_COLS - col,
    {
        let x = (col as i64) * SCALED_TILE_SIZE * UNIT;
        let position = Vec3::new(x, 0, z_units * UNIT);
        let ghost pre = world.entities@;
        let tile_entity = spawn_tile(world, &texture, &position, false);
        world.add_child(lane_entity, tile_entity);
        proof {
            assert(world.entities@ =~= pre.push(
                EntityRec {
                    parent: Some(lane_entity),
                    ..tile_rec(texture, upos(64 * col as int, 0, z_units as int), false)
                },
            ));
        }
        col = col + 1;
    }
}

/// Build the safe spawn lane: a [`SpawnLane`] entity at the top row with
/// its row of grass tiles as children.
pub fn insert_spawn_lane(world: &mut World) -> (id: usize)
    requires
        old(world).wf(),
    ensures
        final(world).wf(),
        id == old(world).entities@.len(),
        final(world).entities@.len() == old(world).entities@.len() + 1 + LEVEL_COLS,
        forall|j: int|
            0 <= j < old(world).entities@.len() ==> final(world).entities@[j] == old(
                world,
            ).entities@[j],
        final(world).entities@[id as int] == (EntityRec {
            spawn_lane: Some(SpawnLane),
            ..EntityRec::empty_rec(upos(0, 0, 0))
        }),
        forall|c: int|
            0 <= c < LEVEL_COLS ==> #[trigger] final(world).entities@[id + 1 + c] == (EntityRec {
                parent: Some(id),
                ..tile_rec(TextureName::Grass, upos(64 * c, 0, 100), false)
            }),
{
    let mut rec = EntityRec::empty_at(Vec3::zero());
    rec.spawn_lane = Some(SpawnLane);
    let lane_entity = world.spawn(rec);
    spawn_lane_tiles(world, lane_entity, TextureName::Grass, 100);
    lane_entity
}

/// Build one car lane at row `idx`: a [`CarLane`] entity with its row of
/// road tiles and its obstacle spawner as children. The spawner sits one
/// tile beyond the travelled edge and is armed with the fixed arming
/// delay.
pub fn insert_car_lane(
    world: &mut World,
    idx: usize,
    direction: &Direction,
    spawn_delays: &Vec<u64>,
    speed: u64,
) -> (id: usize)
    requires
        old(world).wf(),
        idx <= LEVEL_ROWS,
        spawn_delays@.len() > 0,
        forall|i: int| 0 <= i < spawn_delays@.len() ==> #[trigger] spawn_delays@[i] >= 1,
        speed <= SPEED_LIMIT,
    ensures
        final(world).wf(),
        id == old(world).entities@.len(),
        final(world).entities@.len() == old(world).entities@.len() + LEVEL_COLS + 2,
        forall|j: int|
            0 <= j < old(world).entities@.len() ==> final(world).entities@[j] == old(
                world,
            ).entities@[j],
        final(world).entities@[id as int] == (EntityRec {
            car_lane: Some(CarLane { direction: *direction }),
            ..EntityRec::empty_rec(upos(0, -64 * (idx as int), 0))
        }),
        forall|c: int|
            0 <= c < LEVEL_COLS ==> #[trigger] final(world).entities@[id + 1 + c] == (EntityRec {
                parent: Some(id),
                ..tile_rec(TextureName::Road, upos(64 * c, 0, 0), false)
            }),
        ({
            let r = final(world).entities@[id + LEVEL_COLS + 1];
            &&& r == (EntityRec {
                parent: Some(id as usize),
                car_spawner: r.car_spawner,
                spawn_delay: Some(
                    SpawnDelay(
                        Timer { elapsed: 0u64, target: crate::ARMING_DELAY_MS, finished: false },
                    ),
                ),
                ..EntityRec::empty_rec(Vec3 { x: 0, y: 0, z: 0 })
            })
            &&& r.car_spawner is Some
            &&& r.car_spawner->0@ == (CarSpawnerV {
                current_timer_index: 0,
                timings: spawn_delays@.map_values(|t: u64| t as int),
                position: lane_spawn_position(*direction),
                direction: lane_dir_vec(*direction),
                speed: speed as int,
            })
            &&& r.car_spawner->0@.wf()
        }),
{
    let y = -(idx as i64) * SCALED_TILE_SIZE * UNIT;

    let position = match *direction {
        Direction::Left => Vec3::new(SCALED_TILE_SIZE * (LEVEL_COLS as i64) * UNIT, 0, 10 * UNIT),
        Direction::Right => Vec3::new(-(SCALED_TILE_SIZE) * UNIT, 0, 10 * UNIT),
    };

    let direction_v = direction_vec(direction);

    let mut rec = EntityRec::empty_at(Vec3::new(0, y, 0));
    rec.car_lane = Some(CarLane { direction: *direction });
    let lane_entity = world.spawn(rec);

    spawn_lane_tiles(world, lane_entity, TextureName::Road, 0);

    let car_spawner = spawn_car_spawner(world, spawn_delays, position, direction_v, speed);
    world.add_child(lane_entity, car_spawner);
    lane_entity
}

/// Build one end lane at row `idx`: an [`EndLane`] entity with its row of
/// grass tiles as children.
pub fn insert_end_lane(world: &mut World, idx: usize) -> (id: usize)
    requires
        old(world).wf(),
        idx <= LEVEL_ROWS,
    ensures
        final(world).wf(),
        id == old(world).entities@.len(),
        final(world).entities@.len() == old(world).entities@.len() + 1 + LEVEL_COLS,
        forall|j: int|
            0 <= j < old(world).entities@.len() ==> final(world).entities@[j] == old(
                world,
            ).entities@[j],
        final(world).entities@[id as int] == (EntityRec {
            end_lane: Some(EndLane),
            ..EntityRec::empty_rec(upos(0, -64 * (idx as int), 0))
        }),
        forall|c: int|
            0 <= c < LEVEL_COLS ==> #[trigger] final(world).entities@[id + 1 + c] == (EntityRec {
                parent: Some(id),
                ..tile_rec(TextureName::Grass, upos(64 * c, 0, 100), false)
            }),
{
    let y = -(idx as i64) * SCALED_TILE_SIZE * UNIT;
    let mut rec = EntityRec::empty_at(Vec3::new(0, y, 0));
    rec.end_lane = Some(EndLane);
    let lane_entity = world.spawn(rec);
    spawn_lane_tiles(world, lane_entity, TextureName::Grass, 100);
    lane_entity
}

/// A lane descriptor the core accepts: a non-empty sequence of positive
/// delays and a speed under the integrator's cap.
pub open spec fn lane_settings_wf(lane: LaneSettings) -> bool {
    &&& lane.spawn_delays@.len() > 0
    &&& forall|i: int| 0 <= i < lane.spawn_delays@.len() ==> #[trigger] lane.spawn_delays@[i] >= 1
    &&& lane.speed <= SPEED_LIMIT
}

/// Index of the root entity of car lane `k`, for a level built on a world
/// of `n0` entities.
pub open spec fn lane_root_index(n0: int, k: int) -> int {
    n0 + 19 + k * 18
}

/// Index of the spawner entity of car lane `k`.
pub open spec fn lane_spawner_index(n0: int, k: int) -> int {
    lane_root_index(n0, k) + 17
}

/// How many entities one level adds to a world: the lanes root, the spawn
/// lane with its tiles, the car-lanes root, one lane with tiles and a
/// spawner per descriptor, the end-lanes root, and end lanes with tiles
/// for the remaining rows.
pub open spec fn level_entity_count(amount: int) -> int {
    1 + (1 + 16) + 1 + amount * 18 + 1 + (8 - amount) * 17
}

/// The spawner of car lane `k` is configured exactly from its descriptor:
/// cyclic index 0, the descriptor's delays, the position and unit
/// direction of its travel sense, its speed, the fixed arming delay on
/// the timer, and the lane root as parent.
pub open spec fn lane_spawner_ok(es: Seq<EntityRec>, n0: int, k: int, lane: LaneSettings) -> bool {
    let r = es[lane_spawner_index(n0, k)];
    &&& r.parent == Some(lane_root_index(n0, k) as usize)
    &&& r.car_spawner is Some
    &&& r.car_spawner->0@ == (CarSpawnerV {
        current_timer_index: 0,
        timings: lane.spawn_delays@.map_values(|t: u64| t as int),
        position: lane_spawn_position(lane.direction),
        direction: lane_dir_vec(lane.direction),
        speed: lane.speed as int,
    })
    &&& r.spawn_delay == Some(
        SpawnDelay(Timer { elapsed: 0u64, target: crate::ARMING_DELAY_MS, finished: false }),
    )
}

/// Build a whole level from its descriptor: a lanes root holding the
/// spawn lane, one car lane per descriptor (rows 1 onward, each with its
/// armed spawner), and end lanes on the remaining rows.
pub fn spawn_level(world: &mut World, level_settings: LevelSettings)
    requires
        old(world).wf(),
        level_settings.lanes@.len() + 1 <= LEVEL_ROWS,
        forall|k: int|
            0 <= k < level_settings.lanes@.len() ==> lane_settings_wf(
                #[trigger] level_settings.lanes@[k],
            ),
    ensures
        final(world).wf(),
        final(world).entities@.len() == old(world).entities@.len() + level_entity_count(
            level_settings.lanes@.len() as int,
        ),
        forall|j: int|
            0 <= j < old(world).entities@.len() ==> final(world).entities@[j] == old(
                world,
            ).entities@[j],
        forall|k: int|
            0 <= k < level_settings.lanes@.len() ==> lane_spawner_ok(
                final(world).entities@,
                old(world).entities@.len() as int,
                k,
                #[trigger] level_settings.lanes@[k],
            ),
{
    let ghost n0 = old(world).entities@.len() as int;

    let lanes = world.spawn(EntityRec::empty_at(Vec3::new(CELL_0_X, CELL_0_Y, -100 * UNIT)));

    let spawn_lanes = insert_spawn_lane(world);
    world.add_child(lanes, spawn_lanes);

    let car_lanes = world.spawn(EntityRec::empty_at(Vec3::zero()));

    let amount_car_lanes = level_settings.lanes.len();
    let remaining_lanes = LEVEL_ROWS - 1 - amount_car_lanes;

    let mut idx: usize = 0;
    while idx < amount_car_lanes
        invariant
            idx <= amount_car_lanes,
            world.wf(),
            n0 == old(world).entities@.len(),
            amount_car_lanes == level_settings.lanes@.len(),
            amount_car_lanes + 1 <= LEVEL_ROWS,
            forall|k: int|
                0 <= k < level_settings.lanes@.len() ==> lane_settings_wf(
                    #[trigger] level_settings.lanes@[k],
                ),
            car_lanes == n0 + 18,
            world.entities@.len() == n0 + 19 + idx * 18,
            forall|j: int| 0 <= j < n0 ==> world.entities@[j] == old(world).entities@[j],
            forall|k: int|
                0 <= k < idx ==> lane_spawner_ok(
                    world.entities@,
                    n0,
                    k,
                    #[trigger] level_settings.lanes@[k],
                ),
        decreases amount_car_lanes - idx,
    {
        let lane = &level_settings.lanes[idx];
        let ghost pre = world.entities@;
        let lane_entity = insert_car_lane(
            world,
            idx + 1,
            &lane.direction,
            &lane.spawn_delays,
            lane.speed,
        );
        let ghost mid = world.entities@;
        world.add_child(car_lanes, lane_entity);
        proof {
            assert(lane_entity == lane_root_index(n0, idx as int));
            assert forall|k: int| 0 <= k < idx + 1 implies lane_spawner_ok(
                world.entities@,
                n0,
                k,
                #[trigger] level_settings.lanes@[k],
            ) by {
                assert(lane_spawner_index(n0, k) != lane_entity as int);
                assert(world.entities@[lane_spawner_index(n0, k)] == mid[lane_spawner_index(
                    n0,
                    k,
                )]);
                if k < idx {
                    assert(lane_spawner_index(n0, k) < pre.len());
                    assert(mid[lane_spawner_index(n0, k)] == pre[lane_spawner_index(n0, k)]);
                }
            }
        }
        idx = idx + 1;
    }

    world.add_child(lanes, car_lanes);

    let end_lanes = world.spawn(EntityRec::empty_at(Vec3::zero()));
    let ghost e0 = n0 + 19 + (amount_car_lanes as int) * 18;

    let mut end_idx: usize = amount_car_lanes + 1;
    while end_idx < remaining_lanes + amount_car_lanes + 1
        invariant
            amount_car_lanes + 1 <= end_idx <= remaining_lanes + amount_car_lanes + 1,
            world.wf(),
            n0 == old(world).entities@.len(),
            amount_car_lanes == level_settings.lanes@.len(),
            amount_car_lanes + 1 <= LEVEL_ROWS,
            remaining_lanes == LEVEL_ROWS - 1 - amount_car_lanes,
            end_lanes == e0,
            e0 == n0 + 19 + (amount_car_lanes as int) * 18,
            world.entities@.len() == e0 + 1 + (end_idx - amount_car_lanes - 1) * 17,
            forall|j: int| 0 <= j < n0 ==> world.entities@[j] == old(world).entities@[j],
            forall|k: int|
                0 <= k < amount_car_lanes ==> lane_spawner_ok(
                    world.entities@,
                    n0,
                    k,
                    #[trigger] level_settings.lanes@[k],
                ),
        decreases remaining_lanes + amount_car_lanes + 1 - end_idx,
    {
        let ghost pre = world.entities@;
        let lane_entity = insert_end_lane(world, end_idx);
        world.add_child(end_lanes, lane_entity);
        proof {
            assert forall|k: int| 0 <= k < amount_car_lanes implies lane_spawner_ok(
                world.entities@,
                n0,
                k,
                #[trigger] level_settings.lanes@[k],
            ) by {
                assert(lane_spawner_index(n0, k) < pre.len());
                assert(world.entities@[lane_spawner_index(n0, k)] == pre[lane_spawner_index(
                    n0,
                    k,
                )]);
            }
        }
        end_idx = end_idx + 1;
    }

    world.add_child(lanes, end_lanes);
    proof {
        assert forall|k: int| 0 <= k < amount_car_lanes implies lane_spawner_ok(
            world.entities@,
            n0,
            k,
            #[trigger] level_settings.lanes@[k],
        ) by {
            assert(lane_spawner_index(n0, k) != lanes as int && lane_spawner_index(n0, k)
                != end_lanes as int);
        }
    }
}

} // verus!

//! The entity arena: a growing vector of entity records with stable integer
//! identifiers, standing in for an engine-managed entity graph.
//!
//! Each record carries a world-space position plus optional components.
//! "Attach as child" is a plain parent identifier used only for grouping;
//! motion is always computed in world space, never through the parent.

use crate::car::{Car, CarSpawner, SpawnDelay};
use crate::level::{CarLane, EndLane, SpawnLane};
use crate::movement::{Direction, Movable, Speed, Vec3};
use crate::player::Player;
use crate::tilemap::Sprite;
use vstd::prelude::*;

verus! {

/// Grid height of a level, in lanes (rows).
pub const LEVEL_ROWS: usize = 9;

/// Grid width of a level, in cells (columns).
pub const LEVEL_COLS: usize = 16;

/// Height of the whole grid in world units: `LEVEL_ROWS * SCALED_TILE_SIZE`.
pub const ROW_SCALED: i64 = 576;

/// Width of the whole grid in world units: `LEVEL_COLS * SCALED_TILE_SIZE`.
pub const COL_SCALED: i64 = 1024;

/// Micro-units per world unit: the scale of stored positions.
pub const UNIT: i64 = 1_000_000;

/// y of the topmost cell's center in micro-units:
/// `(ROW_SCALED / 2 - SCALED_TILE_SIZE / 2) * UNIT`.
pub const CELL_0_Y: i64 = 256_000_000;

/// x of the leftmost cell's center in micro-units:
/// `-(COL_SCALED / 2 - SCALED_TILE_SIZE / 2) * UNIT`.
pub const CELL_0_X: i64 = -480_000_000;

/// A position given in world units, converted to stored micro-units.
pub open spec fn upos(xu: int, yu: int, zu: int) -> Vec3 {
    Vec3 { x: (xu * 1_000_000) as i64, y: (yu * 1_000_000) as i64, z: (zu * 1_000_000) as i64 }
}

/// One entity of the arena: a position plus optional components. A missing
/// component is `None`; marker components carry no data.
#[derive(Clone, Debug)]
pub struct EntityRec {
    /// Grouping parent, for lifecycle only; never affects motion.
    pub parent: Option<usize>,
    /// World-space position in micro-units.
    pub position: Vec3,
    pub direction: Option<Direction>,
    pub speed: Option<Speed>,
    pub movable: Option<Movable>,
    pub car: Option<Car>,
    pub player: Option<Player>,
    pub sprite: Option<Sprite>,
    pub car_spawner: Option<CarSpawner>,
    pub spawn_delay: Option<SpawnDelay>,
    pub spawn_lane: Option<SpawnLane>,
    pub car_lane: Option<CarLane>,
    pub end_lane: Option<EndLane>,
}

impl EntityRec {
    /// A record at `position` with no components at all.
    pub open spec fn empty_rec(position: Vec3) -> EntityRec {
        EntityRec {
            parent: None,
            position,
            direction: None,
            speed: None,
            movable: None,
            car: None,
            player: None,
            sprite: None,
            car_spawner: None,
            spawn_delay: None,
            spawn_lane: None,
            car_lane: None,
            end_lane: None,
        }
    }

    /// Create a record at `position` with no components at all.
    pub fn empty_at(position: Vec3) -> (r: EntityRec)
        ensures
            r == EntityRec::empty_rec(position),
    {
        EntityRec {
            parent: None,
            position,
            direction: None,
            speed: None,
            movable: None,
            car: None,
            player: None,
            sprite: None,
            car_spawner: None,
            spawn_delay: None,
            spawn_lane: None,
            car_lane: None,
            end_lane: None,
        }
    }
}

/// Well-formedness of one record in an arena of `n` entities: the parent
/// link stays inside the arena and every component satisfies its own
/// invariant.
pub open spec fn rec_wf(r: EntityRec, n: int) -> bool {
    &&& (r.parent is Some ==> 0 <= r.parent->0 < n)
    &&& (r.direction is Some ==> r.direction->0.wf())
    &&& (r.speed is Some ==> r.speed->0.wf())
    &&& (r.car_spawner is Some ==> r.car_spawner->0@.wf())
    &&& (r.spawn_delay is Some ==> (r.spawn_delay->0).0@.wf())
}

/// The world: an arena of entity records, identified by their index.
/// Entities are never removed during a level's lifetime.
#[derive(Debug)]
pub struct World {
    pub entities: Vec<EntityRec>,
}

impl World {
    /// Every record of the arena is well formed.
    pub open spec fn wf(self) -> bool {
        forall|i: int|
            0 <= i < self.entities@.len() ==> rec_wf(
                #[trigger] self.entities@[i],
                self.entities@.len() as int,
            )
    }

    /// An empty world.
    pub fn new() -> (w: World)
        ensures
            w.wf(),
            w.entities@.len() == 0,
    {
        World { entities: Vec::new() }
    }

    /// How many entities the arena holds.
    pub fn len(&self) -> (n: usize)
        ensures
            n == self.entities@.len(),
    {
        self.entities.len()
    }

    /// Read one entity record.
    pub fn entity(&self, id: usize) -> (r: &EntityRec)
        requires
            id < self.entities@.len(),
        ensures
            *r == self.entities@[id as int],
    {
        &self.entities[id]
    }

    /// Add a new entity to the arena; its identifier is returned and stays
    /// valid forever.
    pub fn spawn(&mut self, rec: EntityRec) -> (id: usize)
        requires
            old(self).wf(),
            rec_wf(rec, old(self).entities@.len() as int),
        ensures
            final(self).wf(),
            final(self).entities@ == old(self).entities@.push(rec),
            id == old(self).entities@.len(),
    {
        let id = self.entities.len();
        self.entities.push(rec);
        id
    }

    /// Attach `child` as a child of `parent`, purely for grouping; the
    /// child's other components and position are untouched.
    pub fn add_child(&mut self, parent: usize, child: usize)
        requires
            old(self).wf(),
            parent < old(self).entities@.len(),
            child < old(self).entities@.len(),
        ensures
            final(self).wf(),
            final(self).entities@ == old(self).entities@.update(
                child as int,
                EntityRec { parent: Some(parent), ..old(self).entities@[child as int] },
            ),
    {
        let rec = &mut self.entities[child];
        rec.parent = Some(parent);
    }
}

} // verus!

//! The tile data model: texture identifiers and tile entities.
//!
//! Rendering itself (texture atlases, sprites on screen) is an external
//! collaborator; this module only records, per tile entity, the discrete
//! appearance identifier and the horizontal-flip flag that the renderer
//! consumes.

use crate::movement::Vec3;
use crate::world::{EntityRec, World};
use vstd::prelude::*;

verus! {

/// Side of one source tile, in pixels of the texture atlas.
pub const TILE_SIZE: usize = 32;

/// Rows of tiles in the texture atlas.
pub const TILE_ROWS: u32 = 10;

/// Columns of tiles in the texture atlas.
pub const TILE_COLUMNS: u32 = 10;

/// Uniform scale applied to every tile sprite.
pub const SCALE: i64 = 2;

/// Side of one scaled tile in world units: `TILE_SIZE * SCALE`.
pub const SCALED_TILE_SIZE: i64 = 64;

/// Discrete appearance identifiers, naming cells of the texture atlas.
#[derive(Clone, Copy, PartialEq, Eq, Structural, Debug)]
pub enum TextureName {
    Grass,
    Road,
    Car1,
    Car2,
    Car3,
    Duck,
}

impl TextureName {
    /// The atlas cell this texture name selects.
    pub open spec fn index_spec(self) -> int {
        match self {
            TextureName::Grass => 0,
            TextureName::Road => 10,
            TextureName::Car1 => 1,
            TextureName::Car2 => 2,
            TextureName::Car3 => 3,
            TextureName::Duck => 13,
        }
    }

    /// The atlas cell this texture name selects.
    pub fn index(&self) -> (i: usize)
        ensures
            i == self.index_spec(),
    {
        match *self {
            TextureName::Grass => 0,
            TextureName::Road => 10,
            TextureName::Car1 => 1,
            TextureName::Car2 => 2,
            TextureName::Car3 => 3,
            TextureName::Duck => 13,
        }
    }
}

/// What the renderer needs of a visual entity: which atlas cell to draw
/// and whether to mirror it horizontally.
#[derive(Clone, Copy, PartialEq, Eq, Structural, Debug)]
pub struct Sprite {
    pub texture_index: usize,
    pub flip_x: bool,
}

/// The record a freshly spawned tile entity holds: a sprite at a position,
/// nothing else.
pub open spec fn tile_rec(texture_name: TextureName, position: Vec3, flip_x: bool) -> EntityRec {
    EntityRec {
        sprite: Some(
            Sprite { texture_index: texture_name.index_spec() as usize, flip_x: flip_x },
        ),
        ..EntityRec::empty_rec(position)
    }
}

/// Create a visual entity at `position` with the given appearance and
/// horizontal-flip flag.
pub fn spawn_tile(
    world: &mut World,
    texture_name: &TextureName,
    position: &Vec3,
    flip_x: bool,
) -> (id: usize)
    requires
        old(world).wf(),
    ensures
        final(world).wf(),
        final(world).entities@ == old(world).entities@.push(
            tile_rec(*texture_name, *position, flip_x),
        ),
        id == old(world).entities@.len(),
{
    let mut rec = EntityRec::empty_at(*position);
    rec.sprite = Some(Sprite { texture_index: texture_name.index(), flip_x });
    world.spawn(rec)
}

} // verus!

//! The player entity: spawned once, moved by the same direction/speed/
//! movable data model as obstacles. Input polling is an external
//! collaborator; it hands this module four pressed-key flags once per
//! frame.

use crate::movement::{norm_x, norm_y, Direction, Movable, Speed, Vec3};
use crate::tilemap::{tile_rec, Sprite, TextureName};
use crate::world::{EntityRec, World, CELL_0_Y};
use vstd::prelude::*;

verus! {

/// Marker component: the player entity.
#[derive(Clone, Copy, PartialEq, Eq, Structural, Debug)]
pub struct Player;

/// The record the player entity holds: the duck sprite on the topmost
/// cell, a zero direction, speed 100, and the movable tag.
pub open spec fn player_rec() -> EntityRec {
    EntityRec {
        player: Some(Player),
        direction: Some(Direction { x: 0 as i64, y: 0 as i64 }),
        speed: Some(Speed(100)),
        movable: Some(Movable),
        ..tile_rec(TextureName::Duck, Vec3 { x: 0 as i64, y: CELL_0_Y, z: 100_000_000 as i64 }, false)
    }
}

/// Create the player: a movable duck on the topmost cell with a zero
/// direction (standing still) and speed 100.
pub fn spawn_player(world: &mut World) -> (id: usize)
    requires
        old(world).wf(),
    ensures
        final(world).wf(),
        id == old(world).entities@.len(),
        final(world).entities@ == old(world).entities@.push(player_rec()),
{
    let mut rec = EntityRec::empty_at(Vec3::new(0, CELL_0_Y, 100_000_000));
    rec.sprite = Some(Sprite { texture_index: TextureName::Duck.index(), flip_x: false });
    rec.player = Some(Player);
    rec.direction = Some(Direction::new());
    rec.speed = Some(Speed(100));
    rec.movable = Some(Movable);
    world.spawn(rec)
}

/// One input axis: `+1` when the positive key is down, `-1` when the
/// negative key is down, `0` when both or neither.
pub open spec fn input_axis(positive: bool, negative: bool) -> int {
    (if positive {
        1int
    } else {
        0int
    }) - (if negative {
        1int
    } else {
        0int
    })
}

/// How the input frame relates an old entity record to a new one: the
/// player's direction becomes the normalization of the pressed-key axes;
/// everything else, and every non-player entity, is untouched.
pub open spec fn rec_steered(o: EntityRec, n: EntityRec, x: int, y: int) -> bool {
    if o.player is Some && o.direction is Some {
        &&& n == (EntityRec { direction: n.direction, ..o })
        &&& n.direction == Some(Direction { x: norm_x(x, y) as i64, y: norm_y(x, y) as i64 })
    } else {
        n == o
    }
}

/// Feed one frame of input to the player: `w`/`s` move up/down and
/// `d`/`a` move right/left; the resulting vector is normalized into the
/// player's direction (opposing keys cancel to the zero direction).
pub fn handle_input(world: &mut World, w: bool, s: bool, d: bool, a: bool)
    requires
        old(world).wf(),
    ensures
        final(world).wf(),
        final(world).entities@.len() == old(world).entities@.len(),
        forall|i: int|
            0 <= i < old(world).entities@.len() ==> rec_steered(
                old(world).entities@[i],
                #[trigger] final(world).entities@[i],
                input_axis(d, a),
                input_axis(w, s),
            ),
{
    let mut y: i64 = 0;
    if w {
        y = y + 1;
    }
    if s {
        y = y - 1;
    }

    let mut x: i64 = 0;
    if d {
        x = x + 1;
    }
    if a {
        x = x - 1;
    }

    let n = world.entities.len();
    let mut i: usize = 0;
    while i < n
        invariant
            i <= n,
            -1 <= x <= 1,
            -1 <= y <= 1,
            x == input_axis(d, a),
            y == input_axis(w, s),
            n == old(world).entities@.len(),
            world.entities@.len() == n,
            forall|k: int| i <= k < n ==> world.entities@[k] == old(world).entities@[k],
            forall|k: int|
                0 <= k < i ==> rec_steered(
                    old(world).entities@[k],
                    #[trigger] world.entities@[k],
                    input_axis(d, a),
                    input_axis(w, s),
                ),
            forall|k: int|
                0 <= k < n ==> crate::world::rec_wf(#[trigger] world.entities@[k], n as int),
        decreases n - i,
    {
        let is_player = {
            let r = &world.entities[i];
            r.player.is_some() && r.direction.is_some()
        };
        if is_player {
            let mut direction = {
                let r = &world.entities[i];
                *r.direction.as_ref().unwrap()
            };
            direction.set(x, y);
            let rm = &mut world.entities[i];
            rm.direction = Some(direction);
        }
        i = i + 1;
    }
}

} // verus!

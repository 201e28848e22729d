//! Simulation core of a lane-based arcade game: per-lane spawn timers that
//! periodically request new obstacles, and constant-velocity motion
//! integration over all movable entities.
//!
//! Time is measured in whole milliseconds. Positions are measured in
//! micro-units (one millionth of a world unit) so that velocity integration
//! is exact integer arithmetic. Directions are fixed-point vectors scaled by
//! `movement::DIR_SCALE`.

pub mod car;
pub mod level;
pub mod movement;
pub mod player;
pub mod tilemap;
pub mod timer;
pub mod world;

use crate::car::{
    car_spawn, fired_events, is_dispatched_car, lemma_fired_events_wf, rec_ticked,
    spawned_car_rec, timer_tick, SpawnCarEventV, CAR_VARIANTS,
};
use crate::movement::{
    apply_velocity, is_movable, pos_in_range, rec_integrated, DELTA_LIMIT,
};
use crate::world::{EntityRec, World};
use vstd::prelude::*;

verus! {

/// Milliseconds of the fixed arming delay: the wait before a fresh
/// spawner's first spawn, independent of its own delay sequence.
pub const ARMING_DELAY_MS: u64 = 2000;

/// A frame of `delta` milliseconds can run on this world without any
/// arithmetic leaving 64 bits: the delta is capped and every position the
/// integrator may touch — of movable entities, and of obstacles the
/// frame's spawns would place — is in range.
pub open spec fn frame_safe(w: World, delta: u64) -> bool {
    &&& delta <= DELTA_LIMIT
    &&& forall|i: int|
        0 <= i < w.entities@.len() && is_movable(#[trigger] w.entities@[i]) ==> pos_in_range(
            w.entities@[i].position,
        )
    &&& forall|i: int|
        0 <= i < w.entities@.len() && (#[trigger] w.entities@[i]).car_spawner is Some
            ==> pos_in_range(w.entities@[i].car_spawner->0@.position)
}

/// Decide [`frame_safe`] at run time, so an unverified caller can test it
/// before a frame and fail fast instead of violating a precondition.
pub fn frame_ready(world: &World, delta: u64) -> (r: bool)
    ensures
        r == frame_safe(*world, delta),
{
    if delta > DELTA_LIMIT {
        return false;
    }
    let n = world.entities.len();
    let mut i: usize = 0;
    while i < n
        invariant
            i <= n,
            n == world.entities@.len(),
            forall|k: int|
                0 <= k < i && is_movable(#[trigger] world.entities@[k]) ==> pos_in_range(
                    world.entities@[k].position,
                ),
            forall|k: int|
                0 <= k < i && (#[trigger] world.entities@[k]).car_spawner is Some ==> pos_in_range(
                    world.entities@[k].car_spawner->0@.position,
                ),
        decreases n - i,
    {
        let r = &world.entities[i];
        if r.movable.is_some() && r.direction.is_some() && r.speed.is_some() {
            let p = r.position;
            if p.x < -movement::POS_LIMIT || p.x > movement::POS_LIMIT || p.y
                < -movement::POS_LIMIT || p.y > movement::POS_LIMIT {
                return false;
            }
        }
        if r.car_spawner.is_some() {
            let p = r.car_spawner.as_ref().unwrap().position;
            if p.x < -movement::POS_LIMIT || p.x > movement::POS_LIMIT || p.y
                < -movement::POS_LIMIT || p.y > movement::POS_LIMIT {
                return false;
            }
        }
        i = i + 1;
    }
    true
}

/// How one whole frame relates an old entity record to a new one: one
/// scheduling step, then one integration step.
pub open spec fn frame_rec(o: EntityRec, n: EntityRec, delta: int) -> bool {
    exists|m: EntityRec| #[trigger] rec_ticked(o, m, delta) && rec_integrated(m, n, delta)
}

/// A record is the obstacle a frame dispatched for the spawn request
/// `ev` and then integrated, under some appearance roll of the palette.
pub open spec fn frame_car(ev: SpawnCarEventV, n: EntityRec, delta: int) -> bool {
    exists|roll: u32|
        roll < CAR_VARIANTS && rec_integrated(#[trigger] spawned_car_rec(ev, roll), n, delta)
}

/// Run one fixed-timestep frame of `delta` milliseconds: the scheduler
/// pass over every spawner, then the dispatcher draining this frame's
/// spawn requests, then the motion integrator over every movable entity
/// (the freshly dispatched obstacles included). No request survives the
/// frame.
pub fn frame(world: &mut World, delta: u64)
    requires
        old(world).wf(),
        frame_safe(*old(world), delta),
    ensures
        final(world).wf(),
        final(world).entities@.len() == old(world).entities@.len() + fired_events(
            old(world).entities@,
            delta as int,
        ).len(),
        forall|i: int|
            0 <= i < old(world).entities@.len() ==> frame_rec(
                old(world).entities@[i],
                #[trigger] final(world).entities@[i],
                delta as int,
            ),
        forall|j: int|
            0 <= j < fired_events(old(world).entities@, delta as int).len() ==> frame_car(
                fired_events(old(world).entities@, delta as int)[j],
                #[trigger] final(world).entities@[old(world).entities@.len() + j],
                delta as int,
            ),
{
    let ghost es0 = old(world).entities@;
    let ghost fired = fired_events(es0, delta as int);
    proof {
        lemma_fired_events_wf(es0, delta as int, es0.len() as int);
    }

    let events = timer_tick(world, delta);
    let ghost es1 = world.entities@;

    car_spawn(world, &events);
    let ghost es2 = world.entities@;
    proof {
        assert forall|i: int|
            0 <= i < es2.len() && is_movable(#[trigger] es2[i]) implies pos_in_range(
            es2[i].position,
        ) by {
            if i < es0.len() {
                assert(rec_ticked(es0[i], es1[i], delta as int));
            } else {
                let j = i - es0.len();
                let ev = fired[j];
                assert(es1[ev.entity] == es2[ev.entity]);
                assert(events@[j]@ == ev);
                assert(es1.len() == es0.len());
                assert(is_dispatched_car(es2[es1.len() + j], events@[j]@));
                assert(is_dispatched_car(es2[i], ev));
                let roll = choose|r: u32| r < CAR_VARIANTS && es2[i] == spawned_car_rec(ev, r);
                assert(es2[i] == spawned_car_rec(ev, roll));
                assert(ev.car_spawner == es0[ev.entity].car_spawner->0@);
                assert(pos_in_range(es0[ev.entity].car_spawner->0@.position));
            }
        }
    }

    apply_velocity(world, delta);

    proof {
        assert forall|i: int| 0 <= i < es0.len() implies frame_rec(
            es0[i],
            #[trigger] world.entities@[i],
            delta as int,
        ) by {
            assert(rec_ticked(es0[i], es2[i], delta as int));
            assert(rec_integrated(es2[i], world.entities@[i], delta as int));
        }
        assert forall|j: int| 0 <= j < fired.len() implies frame_car(
            fired[j],
            #[trigger] world.entities@[es0.len() + j],
            delta as int,
        ) by {
            let i = es0.len() + j;
            assert(events@[j]@ == fired[j]);
            assert(es1.len() == es0.len());
            assert(is_dispatched_car(es2[es1.len() + j], events@[j]@));
            assert(is_dispatched_car(es2[i], fired[j]));
            let roll = choose|r: u32| r < CAR_VARIANTS && es2[i] == spawned_car_rec(fired[j], r);
            assert(es2[i] == spawned_car_rec(fired[j], roll));
            assert(rec_integrated(es2[i], world.entities@[i], delta as int));
        }
    }
}

} // verus!

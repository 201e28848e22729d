//! Obstacle spawning: per-lane spawner entities whose one-shot timers fire
//! on a cyclic schedule, emitting spawn requests that the dispatcher turns
//! into moving car entities.
//!
//! A spawner owns exactly one [`SpawnDelay`] timer. On expiry the timer is
//! replaced wholesale with a fresh one targeting the next delay of the
//! cyclic sequence — never reset in place — so any overrun time is
//! deliberately dropped, not credited to the new timer.

use crate::movement::{Direction, Movable, Speed, Vec3, SPEED_LIMIT};
use crate::tilemap::{Sprite, TextureName};
use crate::timer::{timer_step, Timer, TimerV};
use crate::world::{rec_wf, EntityRec, World};
use vstd::arithmetic::div_mod::{lemma_add_mod_noop_right, lemma_mod_self_0, lemma_small_mod};
use vstd::prelude::*;

verus! {

/// Marker component: a spawned obstacle.
#[derive(Clone, Copy, PartialEq, Eq, Structural, Debug)]
pub struct Car;

/// How many obstacle appearances the fixed palette holds.
pub const CAR_VARIANTS: u32 = 3;

/// What a new obstacle is built from: direction and speed to move with,
/// and the appearance to draw.
#[derive(Clone, Copy, PartialEq, Eq, Structural, Debug)]
pub struct CarSettings {
    pub direction: Direction,
    pub speed: u64,
    pub texture: TextureName,
}

impl Default for CarSettings {
    /// A leftward car at speed 100 with the first appearance.
    fn default() -> (s: CarSettings)
        ensures
            s.direction.x == -crate::movement::DIR_SCALE,
            s.direction.y == 0,
            s.direction.wf(),
            s.speed == 100,
            s.texture == TextureName::Car1,
    {
        CarSettings { direction: Direction::left(), speed: 100, texture: TextureName::Car1 }
    }
}

/// Mathematical state of a [`CarSpawner`], with the delay sequence as a
/// sequence of milliseconds.
pub ghost struct CarSpawnerV {
    pub current_timer_index: int,
    pub timings: Seq<int>,
    pub position: Vec3,
    pub direction: Direction,
    pub speed: int,
}

impl CarSpawnerV {
    /// The delay sequence is non-empty with positive delays that fit the
    /// timer's millisecond range, the cyclic index is in bounds, and the
    /// imprinted direction and speed are themselves well formed.
    pub open spec fn wf(self) -> bool {
        &&& self.timings.len() > 0
        &&& 0 <= self.current_timer_index < self.timings.len()
        &&& forall|i: int|
            0 <= i < self.timings.len() ==> 1 <= #[trigger] self.timings[i] <= u64::MAX
        &&& self.direction.wf()
        &&& 0 <= self.speed <= SPEED_LIMIT
    }
}

/// Per-lane spawner state: a cyclic index into an ordered sequence of
/// delays (milliseconds), the spawn position, and the direction and speed
/// to imprint onto spawned obstacles. The delay sequence is immutable
/// after creation.
#[derive(Clone, Debug)]
pub struct CarSpawner {
    pub current_timer_index: usize,
    pub timings: Vec<u64>,
    pub position: Vec3,
    pub direction: Direction,
    pub speed: u64,
}

impl View for CarSpawner {
    type V = CarSpawnerV;

    open spec fn view(&self) -> CarSpawnerV {
        CarSpawnerV {
            current_timer_index: self.current_timer_index as int,
            timings: self.timings@.map_values(|t: u64| t as int),
            position: self.position,
            direction: self.direction,
            speed: self.speed as int,
        }
    }
}

impl CarSpawner {
    /// An exact copy of this spawner's state.
    pub fn snapshot(&self) -> (c: CarSpawner)
        ensures
            c@ == self@,
    {
        CarSpawner {
            current_timer_index: self.current_timer_index,
            timings: copy_delays(&self.timings),
            position: self.position,
            direction: self.direction,
            speed: self.speed,
        }
    }
}

/// Copy a delay sequence element by element.
fn copy_delays(v: &Vec<u64>) -> (r: Vec<u64>)
    ensures
        r@ == v@,
{
    let mut r: Vec<u64> = Vec::new();
    let mut i: usize = 0;
    while i < v.len()
        invariant
            i <= v@.len(),
            r@ == v@.take(i as int),
        decreases v@.len() - i,
    {
        r.push(v[i]);
        proof {
            assert(r@ =~= v@.take(i as int + 1));
        }
        i = i + 1;
    }
    proof {
        assert(v@.take(v@.len() as int) =~= v@);
    }
    r
}

/// The one-shot countdown a spawner is currently waiting on.
#[derive(Clone, Copy, PartialEq, Eq, Structural, Debug)]
pub struct SpawnDelay(pub Timer);

/// Mathematical content of a spawn request.
pub ghost struct SpawnCarEventV {
    pub car_spawner: CarSpawnerV,
    pub entity: int,
}

/// A spawn request: a snapshot of the issuing spawner's state at the
/// moment of expiry (cyclic index still the one whose delay just ran out)
/// plus the spawner's entity identifier, for parent attachment. Emitted
/// and consumed within one frame.
#[derive(Clone, Debug)]
pub struct SpawnCarEvent {
    pub car_spawner: CarSpawner,
    pub entity: usize,
}

impl View for SpawnCarEvent {
    type V = SpawnCarEventV;

    open spec fn view(&self) -> SpawnCarEventV {
        SpawnCarEventV { car_spawner: self.car_spawner@, entity: self.entity as int }
    }
}

/// The scheduling state of one spawner: its cyclic delay sequence, the
/// cyclic index, and the running timer.
pub ghost struct Sched {
    pub timings: Seq<int>,
    pub index: int,
    pub timer: TimerV,
}

impl Sched {
    pub open spec fn wf(self) -> bool {
        &&& self.timings.len() > 0
        &&& 0 <= self.index < self.timings.len()
        &&& forall|i: int|
            0 <= i < self.timings.len() ==> 1 <= #[trigger] self.timings[i] <= u64::MAX
        &&& self.timer.wf()
    }
}

/// The scheduling state carried by a spawner record and its timer.
pub open spec fn sched_of(sp: CarSpawnerV, t: TimerV) -> Sched {
    Sched { timings: sp.timings, index: sp.current_timer_index, timer: t }
}

/// Cyclic advance: `(index + 1) % n` for an index already in `[0, n)`.
pub open spec fn next_index(index: int, n: int) -> int {
    if index < n - 1 {
        index + 1
    } else {
        0
    }
}

/// What one frame does to one spawner's scheduling state: advance the
/// timer; on the expiry edge, rearm with the delay at the current cyclic
/// index (dropping any overrun) and advance the index cyclically.
pub open spec fn sched_step(s: Sched, delta: int) -> (Sched, bool) {
    let (t2, fired) = timer_step(s.timer, delta);
    if fired {
        (
            Sched {
                timings: s.timings,
                index: next_index(s.index, s.timings.len() as int),
                timer: TimerV::fresh(s.timings[s.index]),
            },
            true,
        )
    } else {
        (Sched { timings: s.timings, index: s.index, timer: t2 }, false)
    }
}

/// One frame preserves a scheduling state's well-formedness.
pub proof fn lemma_sched_step_wf(s: Sched, delta: int)
    requires
        s.wf(),
        delta >= 0,
    ensures
        sched_step(s, delta).0.wf(),
{
}

/// Iterate [`sched_step`] over a sequence of frame deltas.
pub open spec fn sched_run(s: Sched, ds: Seq<int>) -> Sched
    decreases ds.len(),
{
    if ds.len() == 0 {
        s
    } else {
        sched_run(sched_step(s, ds[0]).0, ds.drop_first())
    }
}

/// How many frames of a run fire a spawn.
pub open spec fn sched_fires(s: Sched, ds: Seq<int>) -> nat
    decreases ds.len(),
{
    if ds.len() == 0 {
        0
    } else {
        (if sched_step(s, ds[0]).1 {
            1nat
        } else {
            0nat
        }) + sched_fires(sched_step(s, ds[0]).0, ds.drop_first())
    }
}

/// Total of a sequence of frame deltas.
pub open spec fn sum_of(ds: Seq<int>) -> int
    decreases ds.len(),
{
    if ds.len() == 0 {
        0
    } else {
        ds[0] + sum_of(ds.drop_first())
    }
}

/// Frame deltas are never negative.
pub open spec fn nonneg_deltas(ds: Seq<int>) -> bool {
    forall|i: int| 0 <= i < ds.len() ==> #[trigger] ds[i] >= 0
}

proof fn lemma_sum_nonneg(ds: Seq<int>)
    requires
        nonneg_deltas(ds),
    ensures
        sum_of(ds) >= 0,
    decreases ds.len(),
{
    if ds.len() == 0 {
    } else {
        assert forall|i: int| 0 <= i < ds.drop_first().len() implies #[trigger] ds.drop_first()[i]
            >= 0 by {
            assert(ds[i + 1] >= 0);
        }
        lemma_sum_nonneg(ds.drop_first());
    }
}

/// Law: a frame whose delta does not reach the timer's target produces no
/// spawn and leaves the cyclic index and the delay sequence unchanged;
/// only the timer's elapsed time advances.
pub proof fn lemma_non_crossing_tick(s: Sched, delta: int)
    requires
        !s.timer.finished,
        s.timer.elapsed + delta < s.timer.target,
    ensures
        !sched_step(s, delta).1,
        sched_step(s, delta).0.index == s.index,
        sched_step(s, delta).0.timings == s.timings,
        sched_step(s, delta).0.timer == (TimerV {
            elapsed: s.timer.elapsed + delta,
            target: s.timer.target,
            finished: false,
        }),
{
}

/// A run whose deltas never accumulate to the timer's target fires
/// nothing and moves nothing but the timer's elapsed time.
pub proof fn lemma_quiet_run(s: Sched, ds: Seq<int>)
    requires
        nonneg_deltas(ds),
        !s.timer.finished,
        s.timer.elapsed + sum_of(ds) < s.timer.target,
    ensures
        sched_fires(s, ds) == 0,
        sched_run(s, ds).index == s.index,
        sched_run(s, ds).timings == s.timings,
        sched_run(s, ds).timer.target == s.timer.target,
    decreases ds.len(),
{
    if ds.len() == 0 {
    } else {
        assert forall|i: int| 0 <= i < ds.drop_first().len() implies #[trigger] ds.drop_first()[i]
            >= 0 by {
            assert(ds[i + 1] >= 0);
        }
        lemma_sum_nonneg(ds.drop_first());
        lemma_non_crossing_tick(s, ds[0]);
        lemma_quiet_run(sched_step(s, ds[0]).0, ds.drop_first());
    }
}

/// Law: spawning is edge-triggered. The frame that crosses a target fires
/// exactly once, and after the rearm no later frame fires until the new
/// target — the delay at the old cyclic index — is independently crossed:
/// as long as the following deltas sum to less than that delay, the run
/// fires nothing.
pub proof fn lemma_edge_trigger(s: Sched, delta: int, ds: Seq<int>)
    requires
        s.wf(),
        sched_step(s, delta).1,
        nonneg_deltas(ds),
        sum_of(ds) < s.timings[s.index],
    ensures
        sched_fires(sched_step(s, delta).0, ds) == 0,
        sched_run(sched_step(s, delta).0, ds).index == sched_step(s, delta).0.index,
{
    lemma_quiet_run(sched_step(s, delta).0, ds);
}

/// The cyclic advance is addition by one modulo the sequence length.
proof fn lemma_next_index_mod(i: int, n: int)
    requires
        0 <= i < n,
    ensures
        next_index(i, n) == (i + 1) % n,
{
    if i < n - 1 {
        lemma_small_mod((i + 1) as nat, n as nat);
    } else {
        lemma_mod_self_0(n);
    }
}

/// Law: the delay sequence is consumed round-robin. Over any run, the
/// cyclic index ends at the start index plus the number of spawns, modulo
/// the sequence length; and whenever the run fired at all, the target the
/// spawner last armed is exactly the delay at the index just before —
/// consecutive spawns are separated by the delays `timings[i mod len]` in
/// increasing cyclic order.
pub proof fn lemma_round_robin(s: Sched, ds: Seq<int>)
    requires
        s.wf(),
        nonneg_deltas(ds),
    ensures
        sched_run(s, ds).wf(),
        sched_run(s, ds).timings == s.timings,
        sched_run(s, ds).index == (s.index + sched_fires(s, ds)) % (s.timings.len() as int),
        sched_fires(s, ds) > 0 ==> sched_run(s, ds).timer.target == s.timings[(s.index
            + sched_fires(s, ds) - 1) % (s.timings.len() as int)],
        sched_fires(s, ds) == 0 ==> sched_run(s, ds).timer.target == s.timer.target,
    decreases ds.len(),
{
    let n = s.timings.len() as int;
    if ds.len() == 0 {
        lemma_small_mod(s.index as nat, n as nat);
    } else {
        assert forall|i: int| 0 <= i < ds.drop_first().len() implies #[trigger] ds.drop_first()[i]
            >= 0 by {
            assert(ds[i + 1] >= 0);
        }
        let s1 = sched_step(s, ds[0]).0;
        let fired = sched_step(s, ds[0]).1;
        lemma_sched_step_wf(s, ds[0]);
        lemma_round_robin(s1, ds.drop_first());
        let k1 = sched_fires(s1, ds.drop_first()) as int;
        if fired {
            lemma_next_index_mod(s.index, n);
            lemma_add_mod_noop_right(k1, s.index + 1, n);
            lemma_add_mod_noop_right(k1 - 1, s.index + 1, n);
            lemma_small_mod(s.index as nat, n as nat);
        }
    }
}

/// The frame deltas that land exactly on the spawner's targets: first the
/// time still left on the running timer, then exactly each successive
/// delay of the cyclic sequence.
pub open spec fn exact_deltas(s: Sched, k: nat) -> Seq<int> {
    Seq::new(
        k,
        |j: int|
            if j == 0 {
                s.timer.target - s.timer.elapsed
            } else {
                s.timings[(s.index + j - 1) % (s.timings.len() as int)]
            },
    )
}

/// Law: a run whose deltas land exactly on the successive targets fires a
/// spawn on every single frame — after the initial delay runs out,
/// consecutive spawns are separated by exactly the delays
/// `timings[i mod len]` for increasing `i`, indefinitely, whatever the
/// sequence length.
pub proof fn lemma_exact_cadence(s: Sched, k: nat)
    requires
        s.wf(),
        !s.timer.finished,
    ensures
        sched_fires(s, exact_deltas(s, k)) == k,
    decreases k,
{
    let n = s.timings.len() as int;
    let ds = exact_deltas(s, k);
    if k == 0 {
    } else {
        let s1 = sched_step(s, ds[0]).0;
        assert(sched_step(s, ds[0]).1);
        lemma_sched_step_wf(s, ds[0]);
        lemma_next_index_mod(s.index, n);
        assert(ds.drop_first() =~= exact_deltas(s1, (k - 1) as nat)) by {
            assert forall|j: int| 0 <= j < k - 1 implies ds.drop_first()[j] == exact_deltas(
                s1,
                (k - 1) as nat,
            )[j] by {
                if j == 0 {
                    lemma_small_mod(s.index as nat, n as nat);
                } else {
                    lemma_add_mod_noop_right(j - 1, s.index + 1, n);
                }
            }
        }
        lemma_exact_cadence(s1, (k - 1) as nat);
    }
}

/// Law: spawns never come early, whatever the frame deltas. A run that
/// fires `m` spawns has accumulated at least the exact time to the `m`-th
/// target: the time left on the running timer plus the next `m - 1`
/// delays in cyclic order. (It may well have accumulated more: time
/// beyond a target is dropped at the rearm, not credited.) Together with
/// [`lemma_exact_cadence`], the spawn count equals the number of times
/// the accumulated time crosses the cumulative consumed delays whenever
/// frames land on the targets, and never exceeds it otherwise.
pub proof fn lemma_fires_take_time(s: Sched, ds: Seq<int>)
    requires
        s.wf(),
        !s.timer.finished,
        nonneg_deltas(ds),
    ensures
        sum_of(exact_deltas(s, sched_fires(s, ds))) <= sum_of(ds),
    decreases ds.len(),
{
    let n = s.timings.len() as int;
    let m = sched_fires(s, ds);
    if ds.len() == 0 {
    } else {
        assert forall|i: int| 0 <= i < ds.drop_first().len() implies #[trigger] ds.drop_first()[i]
            >= 0 by {
            assert(ds[i + 1] >= 0);
        }
        let d0 = ds[0];
        let s1 = sched_step(s, d0).0;
        let fired = sched_step(s, d0).1;
        lemma_sched_step_wf(s, d0);
        lemma_fires_take_time(s1, ds.drop_first());
        let m1 = sched_fires(s1, ds.drop_first());
        if fired {
            lemma_next_index_mod(s.index, n);
            assert(exact_deltas(s, m).drop_first() =~= exact_deltas(s1, m1)) by {
                assert forall|j: int| 0 <= j < m - 1 implies exact_deltas(s, m).drop_first()[j]
                    == exact_deltas(s1, m1)[j] by {
                    if j == 0 {
                        lemma_small_mod(s.index as nat, n as nat);
                    } else {
                        lemma_add_mod_noop_right(j - 1, s.index + 1, n);
                    }
                }
            }
            assert(sum_of(exact_deltas(s, m)) == exact_deltas(s, m)[0] + sum_of(
                exact_deltas(s, m).drop_first(),
            ));
            assert(exact_deltas(s, m)[0] == s.timer.target - s.timer.elapsed);
            assert(d0 >= s.timer.target - s.timer.elapsed);
        } else {
            if m == 0 {
                lemma_sum_nonneg(ds);
            } else {
                assert(exact_deltas(s, m).drop_first() =~= exact_deltas(s1, m).drop_first()) by {
                    assert forall|j: int|
                        0 <= j < m - 1 implies exact_deltas(s, m).drop_first()[j] == exact_deltas(
                        s1,
                        m,
                    ).drop_first()[j] by {
                        assert(exact_deltas(s, m)[j + 1] == s.timings[(s.index + j) % n]);
                        assert(exact_deltas(s1, m)[j + 1] == s.timings[(s.index + j) % n]);
                    }
                }
                assert(sum_of(exact_deltas(s, m)) == exact_deltas(s, m)[0] + sum_of(
                    exact_deltas(s, m).drop_first(),
                ));
                assert(sum_of(exact_deltas(s1, m)) == exact_deltas(s1, m)[0] + sum_of(
                    exact_deltas(s1, m).drop_first(),
                ));
                assert(exact_deltas(s1, m)[0] == s.timer.target - (s.timer.elapsed + d0));
            }
        }
    }
}

/// How one frame relates an old entity record to a new one: a record with
/// a spawner and a timer takes one scheduling step (everything else
/// untouched); any other record is untouched entirely.
pub open spec fn rec_ticked(o: EntityRec, n: EntityRec, delta: int) -> bool {
    if o.car_spawner is Some && o.spawn_delay is Some {
        let s2 = sched_step(sched_of(o.car_spawner->0@, (o.spawn_delay->0).0@), delta).0;
        &&& n == (EntityRec { car_spawner: n.car_spawner, spawn_delay: n.spawn_delay, ..o })
        &&& n.car_spawner is Some
        &&& n.car_spawner->0@ == (CarSpawnerV {
            current_timer_index: s2.index,
            ..o.car_spawner->0@
        })
        &&& n.spawn_delay is Some
        &&& (n.spawn_delay->0).0@ == s2.timer
    } else {
        n == o
    }
}

/// The spawn requests one frame emits, in entity order: one per spawner
/// whose timer crosses its target this frame, snapshotting the spawner's
/// state before rearming.
pub open spec fn fired_events(es: Seq<EntityRec>, delta: int) -> Seq<SpawnCarEventV>
    decreases es.len(),
{
    if es.len() == 0 {
        Seq::empty()
    } else {
        let rest = fired_events(es.drop_last(), delta);
        let last = es.last();
        if last.car_spawner is Some && last.spawn_delay is Some && timer_step(
            (last.spawn_delay->0).0@,
            delta,
        ).1 {
            rest.push(
                SpawnCarEventV {
                    car_spawner: last.car_spawner->0@,
                    entity: es.len() - 1,
                },
            )
        } else {
            rest
        }
    }
}

/// Create a spawner entity for one lane: cyclic index 0, the given delay
/// sequence, spawn position, direction and speed, with its first timer
/// armed to the fixed arming delay (not to the sequence's first element).
pub fn spawn_car_spawner(
    world: &mut World,
    timings: &Vec<u64>,
    position: Vec3,
    direction: Direction,
    speed: u64,
) -> (id: usize)
    requires
        old(world).wf(),
        timings@.len() > 0,
        forall|i: int| 0 <= i < timings@.len() ==> #[trigger] timings@[i] >= 1,
        direction.wf(),
        speed <= SPEED_LIMIT,
    ensures
        final(world).wf(),
        final(world).entities@.len() == old(world).entities@.len() + 1,
        forall|k: int|
            0 <= k < old(world).entities@.len() ==> final(world).entities@[k] == old(
                world,
            ).entities@[k],
        id == old(world).entities@.len(),
        ({
            let r = final(world).entities@[id as int];
            &&& r == (EntityRec {
                car_spawner: r.car_spawner,
                spawn_delay: Some(
                    SpawnDelay(
                        Timer {
                            elapsed: 0u64,
                            target: crate::ARMING_DELAY_MS,
                            finished: false,
                        },
                    ),
                ),
                ..EntityRec::empty_rec(Vec3 { x: 0, y: 0, z: 0 })
            })
            &&& r.car_spawner is Some
            &&& r.car_spawner->0@ == (CarSpawnerV {
                current_timer_index: 0,
                timings: timings@.map_values(|t: u64| t as int),
                position: position,
                direction: direction,
                speed: speed as int,
            })
            &&& r.car_spawner->0@.wf()
        }),
{
    let mut rec = EntityRec::empty_at(Vec3::zero());
    rec.car_spawner = Some(
        CarSpawner {
            current_timer_index: 0,
            timings: copy_delays(timings),
            position,
            direction,
            speed,
        },
    );
    rec.spawn_delay = Some(SpawnDelay(Timer::from_millis(crate::ARMING_DELAY_MS)));
    world.spawn(rec)
}

/// Advance every spawner's timer by `delta` milliseconds; each timer that
/// crosses its target this frame emits one spawn request and is replaced
/// by a fresh timer targeting the delay at the spawner's cyclic index,
/// which then advances. Entities without a spawner are untouched.
pub fn timer_tick(world: &mut World, delta: u64) -> (events: Vec<SpawnCarEvent>)
    requires
        old(world).wf(),
    ensures
        final(world).wf(),
        final(world).entities@.len() == old(world).entities@.len(),
        forall|k: int|
            0 <= k < old(world).entities@.len() ==> rec_ticked(
                old(world).entities@[k],
                #[trigger] final(world).entities@[k],
                delta as int,
            ),
        events@.len() == fired_events(old(world).entities@, delta as int).len(),
        forall|j: int|
            0 <= j < events@.len() ==> #[trigger] events@[j]@ == fired_events(
                old(world).entities@,
                delta as int,
            )[j],
{
    let mut events: Vec<SpawnCarEvent> = Vec::new();
    let n = world.entities.len();
    let mut i: usize = 0;
    while i < n
        invariant
            i <= n,
            n == old(world).entities@.len(),
            world.entities@.len() == n,
            forall|k: int| i <= k < n ==> world.entities@[k] == old(world).entities@[k],
            forall|k: int|
                0 <= k < i ==> rec_ticked(
                    old(world).entities@[k],
                    #[trigger] world.entities@[k],
                    delta as int,
                ),
            forall|k: int|
                0 <= k < n ==> rec_wf(#[trigger] world.entities@[k], n as int),
            events@.len() == fired_events(old(world).entities@.take(i as int), delta as int).len(),
            forall|j: int|
                0 <= j < events@.len() ==> #[trigger] events@[j]@ == fired_events(
                    old(world).entities@.take(i as int),
                    delta as int,
                )[j],
        decreases n - i,
    {
        let ghost orec = world.entities@[i as int];
        let is_spawner = {
            let r = &world.entities[i];
            r.car_spawner.is_some() && r.spawn_delay.is_some()
        };
        if is_spawner {
            let r = &world.entities[i];
            let parent = r.parent;
            let position = r.position;
            let direction = r.direction;
            let speed = r.speed;
            let movable = r.movable;
            let car = r.car;
            let player = r.player;
            let sprite = r.sprite;
            let spawn_lane = r.spawn_lane;
            let car_lane = r.car_lane;
            let end_lane = r.end_lane;
            let mut sp = r.car_spawner.as_ref().unwrap().snapshot();
            let mut timer = r.spawn_delay.as_ref().unwrap().0;
            let fired = timer.tick(delta);
            let new_delay = if fired {
                proof {
                    assert(sp@.wf());
                    assert(sp@.timings[sp@.current_timer_index] >= 1);
                    assert(sp@.timings[sp@.current_timer_index] == sp.timings@[sp.current_timer_index as int] as int);
                }
                let target = sp.timings[sp.current_timer_index];
                let snap = sp.snapshot();
                events.push(SpawnCarEvent { car_spawner: snap, entity: i });
                let new_index = if sp.current_timer_index < sp.timings.len() - 1 {
                    sp.current_timer_index + 1
                } else {
                    0
                };
                sp.current_timer_index = new_index;
                SpawnDelay(Timer::from_millis(target))
            } else {
                SpawnDelay(timer)
            };
            world.entities[i] = EntityRec {
                parent,
                position,
                direction,
                speed,
                movable,
                car,
                player,
                sprite,
                car_spawner: Some(sp),
                spawn_delay: Some(new_delay),
                spawn_lane,
                car_lane,
                end_lane,
            };
        }
        proof {
            let es = old(world).entities@;
            let pre = es.take(i as int);
            let cur = es.take(i as int + 1);
            assert(cur.drop_last() =~= pre);
            assert(cur.last() == es[i as int]);
            assert(rec_ticked(orec, world.entities@[i as int], delta as int));
        }
        i = i + 1;
    }
    proof {
        assert(old(world).entities@.take(n as int) =~= old(world).entities@);
    }
    events
}

/// Every spawn request a frame emits refers to an entity of the arena and
/// snapshots a well-formed spawner.
pub proof fn lemma_fired_events_wf(es: Seq<EntityRec>, delta: int, n: int)
    requires
        forall|i: int| 0 <= i < es.len() ==> rec_wf(#[trigger] es[i], n),
    ensures
        forall|j: int|
            0 <= j < fired_events(es, delta).len() ==> 0 <= (#[trigger] fired_events(es, delta)[j]).entity
                < es.len(),
        forall|j: int|
            0 <= j < fired_events(es, delta).len() ==> (#[trigger] fired_events(
                es,
                delta,
            )[j]).car_spawner.wf(),
        forall|j: int|
            0 <= j < fired_events(es, delta).len() ==> {
                let ev = #[trigger] fired_events(es, delta)[j];
                es[ev.entity].car_spawner is Some && ev.car_spawner == es[ev.entity].car_spawner->0@
            },
    decreases es.len(),
{
    if es.len() == 0 {
    } else {
        assert(forall|i: int|
            0 <= i < es.drop_last().len() ==> rec_wf(#[trigger] es.drop_last()[i], n));
        lemma_fired_events_wf(es.drop_last(), delta, n);
        let rest = fired_events(es.drop_last(), delta);
        let ev = fired_events(es, delta);
        assert(es.last() == es[es.len() - 1]);
        assert(rec_wf(es[es.len() - 1], n));
        assert forall|j: int| 0 <= j < ev.len() implies 0 <= (#[trigger] ev[j]).entity < es.len()
            && ev[j].car_spawner.wf() by {
            if j < rest.len() {
                assert(ev[j] == rest[j]);
            }
        }
    }
}

/// The appearance an appearance roll selects, uniformly over the fixed
/// palette of [`CAR_VARIANTS`] obstacle appearances.
pub open spec fn texture_for_roll_spec(roll: u32) -> TextureName {
    if roll == 0 {
        TextureName::Car1
    } else if roll == 1 {
        TextureName::Car2
    } else {
        TextureName::Car3
    }
}

/// The appearance an appearance roll selects.
pub fn texture_for_roll(roll: u32) -> (t: TextureName)
    ensures
        t == texture_for_roll_spec(roll),
{
    match roll {
        0 => TextureName::Car1,
        1 => TextureName::Car2,
        _ => TextureName::Car3,
    }
}

/// Relies on `rand::random_range`: returns a value of the given range,
/// which must be non-empty (an empty range panics). Nothing more is
/// assumed of the outcome.
#[verifier::external_body]
fn random_roll(bound: u32) -> (r: u32)
    requires
        bound >= 1,
    ensures
        r < bound,
{
    rand::random_range(0..bound)
}

/// The record a freshly dispatched car entity holds: the requesting
/// spawner's position, direction and speed, the rolled appearance with the
/// sprite mirrored when the direction points in the positive-x sense, the
/// movable tag, and the spawner as grouping parent.
pub open spec fn spawned_car_rec(ev: SpawnCarEventV, roll: u32) -> EntityRec {
    EntityRec {
        parent: Some(ev.entity as usize),
        direction: Some(ev.car_spawner.direction),
        speed: Some(Speed(ev.car_spawner.speed as u64)),
        movable: Some(Movable),
        car: Some(Car),
        sprite: Some(
            Sprite {
                texture_index: texture_for_roll_spec(roll).index_spec() as usize,
                flip_x: ev.car_spawner.direction.x > 0,
            },
        ),
        ..EntityRec::empty_rec(ev.car_spawner.position)
    }
}

/// Construct one car entity from its settings at a position: a movable,
/// tagged obstacle whose sprite is mirrored when it travels in the
/// positive-x sense.
fn spawn_car(world: &mut World, settings: CarSettings, position: &Vec3) -> (id: usize)
    requires
        old(world).wf(),
        settings.direction.wf(),
        settings.speed <= SPEED_LIMIT,
    ensures
        final(world).wf(),
        id == old(world).entities@.len(),
        final(world).entities@ == old(world).entities@.push(
            EntityRec {
                direction: Some(settings.direction),
                speed: Some(Speed(settings.speed)),
                movable: Some(Movable),
                car: Some(Car),
                sprite: Some(
                    Sprite {
                        texture_index: settings.texture.index_spec() as usize,
                        flip_x: settings.direction.x > 0,
                    },
                ),
                ..EntityRec::empty_rec(*position)
            },
        ),
{
    let flip_x = settings.direction.x > 0;
    let mut rec = EntityRec::empty_at(*position);
    rec.sprite = Some(Sprite { texture_index: settings.texture.index(), flip_x });
    rec.car = Some(Car);
    rec.movable = Some(Movable);
    rec.direction = Some(settings.direction);
    rec.speed = Some(Speed(settings.speed));
    world.spawn(rec)
}

/// Turn one spawn request into a car entity with the given appearance
/// roll, attached as a child of its spawner. Verified for every roll
/// value, so the result of any random source may be passed in.
pub fn dispatch_request(world: &mut World, event: &SpawnCarEvent, roll: u32) -> (id: usize)
    requires
        old(world).wf(),
        event@.car_spawner.wf(),
        0 <= event@.entity < old(world).entities@.len(),
    ensures
        final(world).wf(),
        id == old(world).entities@.len(),
        final(world).entities@ == old(world).entities@.push(spawned_car_rec(event@, roll)),
{
    let texture = texture_for_roll(roll);
    let car = spawn_car(
        world,
        CarSettings {
            texture,
            direction: event.car_spawner.direction,
            speed: event.car_spawner.speed,
        },
        &event.car_spawner.position,
    );
    world.add_child(event.entity, car);
    proof {
        assert(world.entities@ =~= old(world).entities@.push(spawned_car_rec(event@, roll)));
    }
    car
}

/// A record is a car dispatched for the spawn request `ev`: it matches
/// the request under some appearance roll of the palette.
pub open spec fn is_dispatched_car(r: EntityRec, ev: SpawnCarEventV) -> bool {
    exists|roll: u32| roll < CAR_VARIANTS && r == #[trigger] spawned_car_rec(ev, roll)
}

/// Drain one frame's spawn requests: for each, pick an appearance
/// uniformly at random from the fixed palette and dispatch a car entity,
/// in request order. Existing entities are untouched.
pub fn car_spawn(world: &mut World, events: &Vec<SpawnCarEvent>)
    requires
        old(world).wf(),
        forall|j: int|
            0 <= j < events@.len() ==> (#[trigger] events@[j])@.car_spawner.wf(),
        forall|j: int|
            0 <= j < events@.len() ==> 0 <= (#[trigger] events@[j])@.entity < old(
                world,
            ).entities@.len(),
    ensures
        final(world).wf(),
        final(world).entities@.len() == old(world).entities@.len() + events@.len(),
        forall|k: int|
            0 <= k < old(world).entities@.len() ==> final(world).entities@[k] == old(
                world,
            ).entities@[k],
        forall|j: int|
            0 <= j < events@.len() ==> is_dispatched_car(
                #[trigger] final(world).entities@[old(world).entities@.len() + j],
                events@[j]@,
            ),
{
    let n = events.len();
    let mut j: usize = 0;
    while j < n
        invariant
            j <= n,
            n == events@.len(),
            world.wf(),
            forall|k: int|
                0 <= k < events@.len() ==> (#[trigger] events@[k])@.car_spawner.wf(),
            forall|k: int|
                0 <= k < events@.len() ==> 0 <= (#[trigger] events@[k])@.entity < old(
                    world,
                ).entities@.len(),
            world.entities@.len() == old(world).entities@.len() + j,
            forall|k: int|
                0 <= k < old(world).entities@.len() ==> world.entities@[k] == old(
                    world,
                ).entities@[k],
            forall|k: int|
                0 <= k < j ==> is_dispatched_car(
                    #[trigger] world.entities@[old(world).entities@.len() + k],
                    events@[k]@,
                ),
        decreases n - j,
    {
        let roll = random_roll(CAR_VARIANTS);
        let ghost pre = world.entities@;
        dispatch_request(world, &events[j], roll);
        proof {
            assert(world.entities@[pre.len() as int] == spawned_car_rec(events@[j as int]@, roll));
            assert(is_dispatched_car(
                world.entities@[old(world).entities@.len() + j as int],
                events@[j as int]@,
            ));
        }
        j = j + 1;
    }
}

} // verus!

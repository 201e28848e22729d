//! The shared movement data model: fixed-point directions, speeds, the
//! movable tag, and constant-velocity integration.
//!
//! A [`Direction`] is a 2D vector whose components are scaled by
//! [`DIR_SCALE`]: the unit vector pointing right is `(DIR_SCALE, 0)`. A
//! direction is always normalized (its squared magnitude lies within a small
//! tolerance of `DIR_SCALE * DIR_SCALE`) or exactly zero; normalizing the
//! zero vector yields the zero vector, meaning "no movement".
//!
//! Positions are measured in micro-units (one millionth of a world unit) so
//! that integrating `direction * speed * delta` over milliseconds is exact
//! integer arithmetic: with speed in units per second and delta in
//! milliseconds, `direction.x * speed * delta` is already in micro-units.

use crate::world::{rec_wf, EntityRec, World};
use vstd::arithmetic::div_mod::lemma_fundamental_div_mod;
use vstd::prelude::*;

verus! {

/// Denominator of fixed-point direction components: a unit direction has
/// squared magnitude close to `DIR_SCALE * DIR_SCALE`.
pub const DIR_SCALE: i64 = 1000;

/// Largest input-vector component accepted by normalization, so that the
/// squared magnitude scaled by `DIR_SCALE * DIR_SCALE` fits in 64 bits.
pub const IN_LIMIT: i64 = 1_000_000;

/// Largest speed, in world units per second, the integrator accepts.
pub const SPEED_LIMIT: u64 = 1_000_000;

/// Largest frame delta, in milliseconds, the integrator accepts.
pub const DELTA_LIMIT: u64 = 3_600_000;

/// Largest position component magnitude, in micro-units, at which another
/// integration step is still free of overflow.
pub const POS_LIMIT: i64 = 1_000_000_000_000_000_000;

/// A position (or translation) in micro-units; the z component is used only
/// for render layering and is never animated.
#[derive(Clone, Copy, PartialEq, Eq, Structural, Debug)]
pub struct Vec3 {
    pub x: i64,
    pub y: i64,
    pub z: i64,
}

impl Vec3 {
    pub fn new(x: i64, y: i64, z: i64) -> (v: Vec3)
        ensures
            v == (Vec3 { x, y, z }),
    {
        Vec3 { x, y, z }
    }

    pub fn zero() -> (v: Vec3)
        ensures
            v == (Vec3 { x: 0 as i64, y: 0 as i64, z: 0 as i64 }),
    {
        Vec3 { x: 0, y: 0, z: 0 }
    }
}

/// A non-negative scalar speed in world units per second, constant for the
/// lifetime of an entity once spawned.
#[derive(Clone, Copy, PartialEq, Eq, Structural, Debug)]
pub struct Speed(pub u64);

impl Speed {
    /// Speeds are capped so that one integration step cannot overflow.
    pub open spec fn wf(self) -> bool {
        self.0 <= SPEED_LIMIT
    }
}

/// Marker component: an entity whose position is advanced by the motion
/// integrator. Carries no data.
#[derive(Clone, Copy, PartialEq, Eq, Structural, Debug)]
pub struct Movable;

/// Where a position component ends up after one integration step: the
/// direction component is in `DIR_SCALE`-ths, the speed in units per second
/// and the delta in milliseconds, so the displacement is in micro-units.
pub open spec fn pos_after(p: int, dir: int, speed: int, delta: int) -> int {
    p + dir * speed * delta
}

/// Law: integrating by `d1` and then by `d2` lands exactly where one
/// integration by `d1 + d2` does. Integration over integers is exact, so
/// this holds with no rounding caveat.
pub proof fn lemma_integration_linear(p: int, dir: int, speed: int, d1: int, d2: int)
    ensures
        pos_after(pos_after(p, dir, speed, d1), dir, speed, d2) == pos_after(
            p,
            dir,
            speed,
            d1 + d2,
        ),
{
    assert(dir * speed * d1 + dir * speed * d2 == dir * speed * (d1 + d2)) by (nonlinear_arith);
}

/// Floor of the square root, as a mathematical definition: the largest `r`
/// with `r * r <= n` (and 0 for negative `n`).
pub open spec fn sqrt_floor(n: int) -> int
    decreases n,
{
    if n <= 0 {
        0
    } else {
        let r = sqrt_floor(n - 1);
        if (r + 1) * (r + 1) <= n {
            r + 1
        } else {
            r
        }
    }
}

pub proof fn lemma_sqrt_floor_bounds(n: int)
    requires
        n >= 0,
    ensures
        0 <= sqrt_floor(n),
        sqrt_floor(n) * sqrt_floor(n) <= n,
        n < (sqrt_floor(n) + 1) * (sqrt_floor(n) + 1),
    decreases n,
{
    if n == 0 {
    } else {
        lemma_sqrt_floor_bounds(n - 1);
        let r0 = sqrt_floor(n - 1);
        if (r0 + 1) * (r0 + 1) <= n {
            assert((r0 + 2) * (r0 + 2) > (r0 + 1) * (r0 + 1) + 1) by (nonlinear_arith)
                requires
                    r0 >= 0,
            ;
        }
    }
}

/// The floor square root is pinned by its two defining inequalities.
pub proof fn lemma_sqrt_floor_unique(n: int, r: int)
    requires
        n >= 0,
        r >= 0,
        r * r <= n,
        n < (r + 1) * (r + 1),
    ensures
        r == sqrt_floor(n),
{
    lemma_sqrt_floor_bounds(n);
    let q = sqrt_floor(n);
    assert(r == q) by (nonlinear_arith)
        requires
            r >= 0,
            q >= 0,
            r * r <= n,
            n < (r + 1) * (r + 1),
            q * q <= n,
            n < (q + 1) * (q + 1),
    ;
}

/// Squared magnitude of the input vector `(x, y)`, scaled by
/// `DIR_SCALE * DIR_SCALE` so its square root is on the fixed-point scale.
pub open spec fn dir_mag2(x: int, y: int) -> int {
    (x * x + y * y) * (DIR_SCALE * DIR_SCALE)
}

/// Magnitude of one normalized component: `a` is the non-negative input
/// component and `r` the floor square root of the scaled squared magnitude.
pub open spec fn norm_mag(a: int, r: int) -> int {
    a * (DIR_SCALE * DIR_SCALE) / r
}

/// The x component a direction normalized from input `(x, y)` has.
pub open spec fn norm_x(x: int, y: int) -> int {
    if x == 0 && y == 0 {
        0
    } else {
        let r = sqrt_floor(dir_mag2(x, y));
        if x < 0 {
            -norm_mag(-x, r)
        } else {
            norm_mag(x, r)
        }
    }
}

/// The y component a direction normalized from input `(x, y)` has.
pub open spec fn norm_y(x: int, y: int) -> int {
    if x == 0 && y == 0 {
        0
    } else {
        let r = sqrt_floor(dir_mag2(x, y));
        if y < 0 {
            -norm_mag(-y, r)
        } else {
            norm_mag(y, r)
        }
    }
}

/// Bounds on the two non-negative normalized magnitudes `dx`, `dy` of an
/// input with absolute components `a`, `b`: each is at most the scale `s`,
/// and their squared sum lies within a small tolerance of `s * s`.
/// `r` is the floor square root of the scaled squared magnitude and
/// `ex`, `ey` are the division remainders.
proof fn lemma_norm_band(s: int, a: int, b: int, r: int, dx: int, ex: int, dy: int, ey: int)
    requires
        s >= 2,
        a >= 0,
        b >= 0,
        a + b >= 1,
        r >= 1,
        r * r <= (a * a + b * b) * (s * s),
        (a * a + b * b) * (s * s) < (r + 1) * (r + 1),
        dx >= 0,
        dy >= 0,
        dx * r + ex == a * (s * s),
        dy * r + ey == b * (s * s),
        0 <= ex < r,
        0 <= ey < r,
    ensures
        0 <= dx <= s,
        0 <= dy <= s,
        s * s - 4 * s <= dx * dx + dy * dy <= s * s + 2 * s,
{
    let n = (a * a + b * b) * (s * s);
    // The scale itself and each scaled input component are at most r.
    assert(s * s <= n && (a * s) * (a * s) <= n && (b * s) * (b * s) <= n) by (nonlinear_arith)
        requires
            s >= 0,
            a >= 0,
            b >= 0,
            a + b >= 1,
            n == (a * a + b * b) * (s * s),
    ;
    assert(s <= r && a * s <= r && b * s <= r) by (nonlinear_arith)
        requires
            s >= 0,
            a >= 0,
            b >= 0,
            r >= 0,
            s * s <= n,
            (a * s) * (a * s) <= n,
            (b * s) * (b * s) <= n,
            n < (r + 1) * (r + 1),
    ;
    // Each component is at most the scale.
    assert(a * (s * s) <= r * s && b * (s * s) <= r * s) by (nonlinear_arith)
        requires
            s >= 0,
            a * s <= r,
            b * s <= r,
    ;
    assert(dx <= s && dy <= s) by (nonlinear_arith)
        requires
            r >= 1,
            s >= 0,
            dx >= 0,
            dy >= 0,
            dx * r <= a * (s * s),
            dy * r <= b * (s * s),
            a * (s * s) <= r * s,
            b * (s * s) <= r * s,
    ;
    // Names for the scaled components and the exact division products.
    let u = a * (s * s);
    let v = b * (s * s);
    let p = dx * r;
    let q = dy * r;
    assert(0 <= u && 0 <= v) by (nonlinear_arith)
        requires
            a >= 0,
            b >= 0,
            u == a * (s * s),
            v == b * (s * s),
    ;
    assert(0 <= p && 0 <= q) by (nonlinear_arith)
        requires
            dx >= 0,
            dy >= 0,
            r >= 1,
            p == dx * r,
            q == dy * r,
    ;
    assert(p * p == (dx * dx) * (r * r) && q * q == (dy * dy) * (r * r)) by (nonlinear_arith)
        requires
            p == dx * r,
            q == dy * r,
    ;
    assert((dx * dx) * (r * r) + (dy * dy) * (r * r) == (dx * dx + dy * dy) * (r * r)) by (
    nonlinear_arith);
    assert(u * u + v * v == n * (s * s)) by (nonlinear_arith)
        requires
            u == a * (s * s),
            v == b * (s * s),
            n == (a * a + b * b) * (s * s),
    ;
    // Upper bound on the squared sum.
    assert(p * p <= u * u && q * q <= v * v) by (nonlinear_arith)
        requires
            0 <= p <= u,
            0 <= q <= v,
    ;
    assert((dx * dx + dy * dy) * (r * r) <= n * (s * s));
    assert(n * (s * s) <= (r * r + 2 * r) * (s * s)) by (nonlinear_arith)
        requires
            s >= 0,
            n < (r + 1) * (r + 1),
    ;
    assert(dx * dx + dy * dy <= s * s + 2 * s) by (nonlinear_arith)
        requires
            1 <= s <= r,
            (dx * dx + dy * dy) * (r * r) <= (r * r + 2 * r) * (s * s),
            dx >= 0,
            dy >= 0,
    ;
    // Lower bound on the squared sum: each division remainder costs at most
    // 2 * r * r * s.
    assert(p * p >= u * u - 2 * (u * ex) && q * q >= v * v - 2 * (v * ey)) by (nonlinear_arith)
        requires
            p == u - ex,
            q == v - ey,
    ;
    assert(u * ex <= (r * r) * s && v * ey <= (r * r) * s) by (nonlinear_arith)
        requires
            0 <= ex <= r,
            0 <= ey <= r,
            0 <= u <= r * s,
            0 <= v <= r * s,
            s >= 0,
            r >= 0,
    ;
    assert(n * (s * s) >= (r * r) * (s * s)) by (nonlinear_arith)
        requires
            s >= 0,
            r * r <= n,
    ;
    assert((dx * dx + dy * dy) * (r * r) >= (r * r) * (s * s) - 4 * ((r * r) * s));
    assert(dx * dx + dy * dy >= s * s - 4 * s) by (nonlinear_arith)
        requires
            r >= 1,
            (dx * dx + dy * dy) * (r * r) >= (r * r) * (s * s) - 4 * ((r * r) * s),
    ;
}

/// Executable floor square root over `u64`, by bisection.
pub fn isqrt(n: u64) -> (r: u64)
    ensures
        r == sqrt_floor(n as int),
        r * r <= n < (r + 1) * (r + 1),
{
    let mut lo: u64 = 0;
    let mut hi: u64 = 4294967295;
    while lo < hi
        invariant
            lo <= hi <= 4294967295,
            lo * lo <= n,
            n < (hi + 1) * (hi + 1),
        decreases hi - lo,
    {
        let mid = lo + (hi - lo + 1) / 2;
        assert(lo < mid <= hi);
        assert(mid * mid <= 4294967295u64 * 4294967295u64) by (nonlinear_arith)
            requires
                0 <= mid <= 4294967295u64,
        ;
        if mid * mid <= n {
            lo = mid;
        } else {
            hi = mid - 1;
        }
    }
    proof {
        lemma_sqrt_floor_unique(n as int, lo as int);
    }
    lo
}

/// Law: normalizing any non-zero input vector yields a direction of unit
/// magnitude within fixed-point tolerance (its squared magnitude is within
/// `4 * DIR_SCALE` below and `2 * DIR_SCALE` above `DIR_SCALE * DIR_SCALE`),
/// with each component at most `DIR_SCALE` in size; the zero vector
/// normalizes to exactly zero.
pub proof fn lemma_normalize_unit(x: int, y: int)
    requires
        -IN_LIMIT <= x <= IN_LIMIT,
        -IN_LIMIT <= y <= IN_LIMIT,
    ensures
        x == 0 && y == 0 ==> norm_x(x, y) == 0 && norm_y(x, y) == 0,
        -DIR_SCALE <= norm_x(x, y) <= DIR_SCALE,
        -DIR_SCALE <= norm_y(x, y) <= DIR_SCALE,
        !(x == 0 && y == 0) ==> DIR_SCALE * DIR_SCALE - 4 * DIR_SCALE <= norm_x(x, y) * norm_x(
            x,
            y,
        ) + norm_y(x, y) * norm_y(x, y) <= DIR_SCALE * DIR_SCALE + 2 * DIR_SCALE,
{
    if x == 0 && y == 0 {
    } else {
        let s = DIR_SCALE as int;
        let a = if x < 0 {
            -x
        } else {
            x
        };
        let b = if y < 0 {
            -y
        } else {
            y
        };
        let n = dir_mag2(x, y);
        assert(n == (a * a + b * b) * (s * s)) by (nonlinear_arith)
            requires
                a == if x < 0 {
                    -x
                } else {
                    x
                },
                b == if y < 0 {
                    -y
                } else {
                    y
                },
                n == (x * x + y * y) * (s * s),
        ;
        assert(n >= 0) by (nonlinear_arith)
            requires
                n == (a * a + b * b) * (s * s),
                a >= 0,
                b >= 0,
                s >= 0,
        ;
        let r = sqrt_floor(n);
        lemma_sqrt_floor_bounds(n);
        assert(r >= 1) by (nonlinear_arith)
            requires
                r >= 0,
                n < (r + 1) * (r + 1),
                n >= (a * a + b * b) * (s * s),
                a >= 0,
                b >= 0,
                a + b >= 1,
                s >= 2,
        ;
        let dx = a * (s * s) / r;
        let dy = b * (s * s) / r;
        lemma_fundamental_div_mod(a * (s * s), r);
        lemma_fundamental_div_mod(b * (s * s), r);
        let ex = a * (s * s) % r;
        let ey = b * (s * s) % r;
        assert(dx >= 0 && dy >= 0) by (nonlinear_arith)
            requires
                dx == a * (s * s) / r,
                dy == b * (s * s) / r,
                a >= 0,
                b >= 0,
                s >= 0,
                r >= 1,
        ;
        lemma_norm_band(s, a, b, r, dx, ex, dy, ey);
        assert(norm_x(x, y) == dx || norm_x(x, y) == -dx);
        assert(norm_y(x, y) == dy || norm_y(x, y) == -dy);
        assert((-dx) * (-dx) == dx * dx && (-dy) * (-dy) == dy * dy) by (nonlinear_arith);
    }
}

/// A direction of movement: a 2D vector scaled by [`DIR_SCALE`], either of
/// unit magnitude within fixed-point tolerance or exactly zero. Mutated in
/// place by input handling; immutable once imprinted on an obstacle.
#[derive(Clone, Copy, PartialEq, Eq, Structural, Debug)]
pub struct Direction {
    pub x: i64,
    pub y: i64,
}

impl Direction {
    /// A direction is always normalized, or the zero vector.
    pub open spec fn wf(self) -> bool {
        &&& -DIR_SCALE <= self.x <= DIR_SCALE
        &&& -DIR_SCALE <= self.y <= DIR_SCALE
        &&& (self.x == 0 && self.y == 0) || (DIR_SCALE * DIR_SCALE - 4 * DIR_SCALE <= self.x
            * self.x + self.y * self.y <= DIR_SCALE * DIR_SCALE + 2 * DIR_SCALE)
    }

    /// The zero direction: no movement.
    pub fn new() -> (d: Direction)
        ensures
            d.x == 0 && d.y == 0,
            d.wf(),
    {
        Direction { x: 0, y: 0 }
    }

    /// The unit direction pointing in the negative-x sense.
    pub fn left() -> (d: Direction)
        ensures
            d.x == -DIR_SCALE && d.y == 0,
            d.wf(),
    {
        proof {
            assert((-1000) * (-1000) == 1000000) by (nonlinear_arith);
        }
        Direction { x: -1000, y: 0 }
    }

    /// The unit direction pointing in the positive-x sense.
    pub fn right() -> (d: Direction)
        ensures
            d.x == DIR_SCALE && d.y == 0,
            d.wf(),
    {
        Direction { x: 1000, y: 0 }
    }

    /// Replace this direction with the normalization of the input vector
    /// `(x, y)`: the zero vector is absorbed as the zero direction, any
    /// other input becomes a unit direction within fixed-point tolerance.
    pub fn set(&mut self, x: i64, y: i64)
        requires
            -IN_LIMIT <= x <= IN_LIMIT,
            -IN_LIMIT <= y <= IN_LIMIT,
        ensures
            final(self).x == norm_x(x as int, y as int),
            final(self).y == norm_y(x as int, y as int),
            final(self).wf(),
    {
        proof {
            lemma_normalize_unit(x as int, y as int);
        }
        if x == 0 && y == 0 {
            self.x = 0;
            self.y = 0;
        } else {
            let a: u64 = (if x < 0 {
                -x
            } else {
                x
            }) as u64;
            let b: u64 = (if y < 0 {
                -y
            } else {
                y
            }) as u64;
            proof {
                assert(a * a <= 1000000000000u64 && b * b <= 1000000000000u64) by (nonlinear_arith)
                    requires
                        0 <= a <= 1000000,
                        0 <= b <= 1000000,
                ;
            }
            let n: u64 = (a * a + b * b) * 1000000;
            let r: u64 = isqrt(n);
            proof {
                assert(n == dir_mag2(x as int, y as int)) by (nonlinear_arith)
                    requires
                        a == if x < 0 {
                            -(x as int)
                        } else {
                            x as int
                        },
                        b == if y < 0 {
                            -(y as int)
                        } else {
                            y as int
                        },
                        n == (a * a + b * b) * 1000000,
                        dir_mag2(x as int, y as int) == ((x as int) * (x as int) + (y as int) * (
                        y as int)) * (1000 * 1000),
                ;
                assert(r >= 1) by (nonlinear_arith)
                    requires
                        r >= 0,
                        n < (r + 1) * (r + 1),
                        n == (a * a + b * b) * 1000000,
                        a >= 0,
                        b >= 0,
                        a + b >= 1,
                ;
                assert(a * 1000000 <= 1000000000000u64 && b * 1000000 <= 1000000000000u64) by (
                nonlinear_arith)
                    requires
                        0 <= a <= 1000000,
                        0 <= b <= 1000000,
                ;
            }
            let dx: u64 = a * 1000000 / r;
            let dy: u64 = b * 1000000 / r;
            proof {
                assert(a as int * (1000 * 1000) >= 0 && b as int * (1000 * 1000) >= 0) by (
                nonlinear_arith)
                    requires
                        a >= 0,
                        b >= 0,
                ;
                lemma_fundamental_div_mod(a as int * (1000 * 1000), r as int);
                lemma_fundamental_div_mod(b as int * (1000 * 1000), r as int);
                vstd::arithmetic::div_mod::lemma_mod_bound(a as int * (1000 * 1000), r as int);
                vstd::arithmetic::div_mod::lemma_mod_bound(b as int * (1000 * 1000), r as int);
                assert((r as int) * (a as int * (1000 * 1000) / (r as int)) == (a as int * (1000
                    * 1000) / (r as int)) * (r as int)) by (nonlinear_arith);
                assert((r as int) * (b as int * (1000 * 1000) / (r as int)) == (b as int * (1000
                    * 1000) / (r as int)) * (r as int)) by (nonlinear_arith);
                lemma_norm_band(
                    1000,
                    a as int,
                    b as int,
                    r as int,
                    dx as int,
                    a as int * (1000 * 1000) % (r as int),
                    dy as int,
                    b as int * (1000 * 1000) % (r as int),
                );
            }
            self.x = if x < 0 {
                -(dx as i64)
            } else {
                dx as i64
            };
            self.y = if y < 0 {
                -(dy as i64)
            } else {
                dy as i64
            };
        }
    }

    /// Replace this direction with the normalization of the vector given
    /// componentwise. Same operation as [`Direction::set`].
    pub fn set_xy(&mut self, x: i64, y: i64)
        requires
            -IN_LIMIT <= x <= IN_LIMIT,
            -IN_LIMIT <= y <= IN_LIMIT,
        ensures
            final(self).x == norm_x(x as int, y as int),
            final(self).y == norm_y(x as int, y as int),
            final(self).wf(),
    {
        self.set(x, y);
    }
}

/// An entity takes part in motion integration when it holds a direction,
/// a speed, and the movable tag.
pub open spec fn is_movable(r: EntityRec) -> bool {
    &&& r.movable is Some
    &&& r.direction is Some
    &&& r.speed is Some
}

/// A position whose x and y are small enough that one more integration
/// step cannot overflow.
pub open spec fn pos_in_range(p: Vec3) -> bool {
    &&& -POS_LIMIT <= p.x <= POS_LIMIT
    &&& -POS_LIMIT <= p.y <= POS_LIMIT
}

/// How one integration frame relates an old entity record to a new one: a
/// movable entity's x and y advance by `direction * speed * delta`, its z
/// and everything else stay; any other entity is untouched entirely.
pub open spec fn rec_integrated(o: EntityRec, n: EntityRec, delta: int) -> bool {
    if is_movable(o) {
        &&& n == (EntityRec { position: n.position, ..o })
        &&& n.position.x == pos_after(o.position.x as int, o.direction->0.x as int, (o.speed->0).0 as int, delta)
        &&& n.position.y == pos_after(o.position.y as int, o.direction->0.y as int, (o.speed->0).0 as int, delta)
        &&& n.position.z == o.position.z
    } else {
        n == o
    }
}

/// Advance every movable entity's position by its constant velocity over
/// `delta` milliseconds: `position += direction * speed * delta`, exactly,
/// in world space and independently per entity. The z axis is reserved
/// for render layering and never animated.
pub fn apply_velocity(world: &mut World, delta: u64)
    requires
        old(world).wf(),
        delta <= DELTA_LIMIT,
        forall|i: int|
            0 <= i < old(world).entities@.len() && is_movable(#[trigger] old(world).entities@[i])
                ==> pos_in_range(old(world).entities@[i].position),
    ensures
        final(world).wf(),
        final(world).entities@.len() == old(world).entities@.len(),
        forall|i: int|
            0 <= i < old(world).entities@.len() ==> rec_integrated(
                old(world).entities@[i],
                #[trigger] final(world).entities@[i],
                delta as int,
            ),
{
    let n = world.entities.len();
    let mut i: usize = 0;
    while i < n
        invariant
            i <= n,
            delta <= DELTA_LIMIT,
            n == old(world).entities@.len(),
            world.entities@.len() == n,
            forall|k: int| i <= k < n ==> world.entities@[k] == old(world).entities@[k],
            forall|k: int|
                0 <= k < i ==> rec_integrated(
                    old(world).entities@[k],
                    #[trigger] world.entities@[k],
                    delta as int,
                ),
            forall|k: int| 0 <= k < n ==> rec_wf(#[trigger] world.entities@[k], n as int),
            forall|k: int|
                0 <= k < n && is_movable(#[trigger] old(world).entities@[k]) ==> pos_in_range(
                    old(world).entities@[k].position,
                ),
        decreases n - i,
    {
        let movable = {
            let r = &world.entities[i];
            r.movable.is_some() && r.direction.is_some() && r.speed.is_some()
        };
        if movable {
            let r = &world.entities[i];
            let direction = *r.direction.as_ref().unwrap();
            let speed = r.speed.as_ref().unwrap().0;
            let position = r.position;
            proof {
                assert(rec_wf(world.entities@[i as int], n as int));
                assert(-1000000000i64 <= direction.x * (speed as i64) <= 1000000000i64 && -1000000000i64
                    <= direction.y * (speed as i64) <= 1000000000i64) by (nonlinear_arith)
                    requires
                        -1000 <= direction.x <= 1000,
                        -1000 <= direction.y <= 1000,
                        0 <= speed <= 1000000,
                ;
                assert(-3600000000000000i64 <= (direction.x * (speed as i64)) * (delta as i64)
                    <= 3600000000000000i64 && -3600000000000000i64 <= (direction.y * (speed as i64))
                    * (delta as i64) <= 3600000000000000i64) by (nonlinear_arith)
                    requires
                        -1000000000 <= direction.x * (speed as i64) <= 1000000000,
                        -1000000000 <= direction.y * (speed as i64) <= 1000000000,
                        0 <= delta <= 3600000,
                ;
            }
            let dx = direction.x * (speed as i64) * (delta as i64);
            let dy = direction.y * (speed as i64) * (delta as i64);
            let rm = &mut world.entities[i];
            rm.position = Vec3 { x: position.x + dx, y: position.y + dy, z: position.z };
        }
        i = i + 1;
    }
}

} // verus!

//! Per-entity motion: seeking a target, keyboard steering, integration of
//! position, the walk-bob pose and the camera's follow step.
use vstd::prelude::*;
use crate::fixed::{
    ceil_sqrt, ceil_sqrt_spec, div_trunc, div_trunc_i128, lemma_ceil_sqrt_is, lemma_div_trunc_bounds, Vec3,
    COORD_LIMIT, ONE, SPEED_LIMIT,
};

verus! {

pub open spec fn abs(a: int) -> int {
    if a >= 0 {
        a
    } else {
        -a
    }
}

/// One axis of a seek velocity: `d * speed / len`, rounded toward zero, where
/// `len` is the (ceiling) length of the whole offset of squared length `n`.
pub open spec fn seek_axis(d: int, n: int, speed: int) -> int {
    div_trunc(d * speed, ceil_sqrt_spec(n))
}

/// The velocity that carries an entity at `from` toward `to` at `speed`: the
/// unit direction of the offset scaled by the speed, zero when the two
/// positions coincide.
pub open spec fn seek_velocity_spec(from: Vec3, to: Vec3, speed: int) -> Vec3 {
    let dx = to.x - from.x;
    let dy = to.y - from.y;
    let dz = to.z - from.z;
    let n = dx * dx + dy * dy + dz * dz;
    if n == 0 {
        Vec3 { x: 0, y: 0, z: 0 }
    } else {
        Vec3 {
            x: seek_axis(dx, n, speed) as i64,
            y: seek_axis(dy, n, speed) as i64,
            z: seek_axis(dz, n, speed) as i64,
        }
    }
}

/// A square is never negative.
pub proof fn lemma_square_nonneg(d: int)
    ensures
        d * d >= 0,
{
    assert(d * d >= 0) by (nonlinear_arith);
}

/// An axis whose square is within the squared length `l * l` scales the speed
/// by at most one.
pub proof fn lemma_seek_axis_bound(d: int, l: int, speed: int)
    requires
        l > 0,
        d * d <= l * l,
    ensures
        -abs(speed) <= div_trunc(d * speed, l) <= abs(speed),
{
    assert(-l <= d <= l) by (nonlinear_arith)
        requires
            l > 0,
            d * d <= l * l,
    ;
    let a = d * speed;
    assert(-(l * abs(speed)) <= a <= l * abs(speed)) by (nonlinear_arith)
        requires
            -l <= d <= l,
            a == d * speed,
            abs(speed) >= 0,
            abs(speed) == speed || abs(speed) == -speed,
    ;
    lemma_div_trunc_bounds(a, l);
    let q = div_trunc(a, l);
    if a >= 0 {
        assert(q <= abs(speed)) by (nonlinear_arith)
            requires
                l > 0,
                q * l <= a,
                a <= l * abs(speed),
        ;
    } else {
        assert(-abs(speed) <= q) by (nonlinear_arith)
            requires
                l > 0,
                a <= q * l,
                -(l * abs(speed)) <= a,
        ;
    }
}

/// The velocity that carries an entity at `from` toward `to` at `speed`.
pub fn seek_velocity(from: Vec3, to: Vec3, speed: i64) -> (v: Vec3)
    requires
        from.bounded(COORD_LIMIT as int),
        to.bounded(COORD_LIMIT as int),
        -SPEED_LIMIT <= speed <= SPEED_LIMIT,
    ensures
        v == seek_velocity_spec(from, to, speed as int),
        v.bounded(abs(speed as int)),
{
    let dx: i128 = to.x as i128 - from.x as i128;
    let dy: i128 = to.y as i128 - from.y as i128;
    let dz: i128 = to.z as i128 - from.z as i128;
    proof {
        assert(dx * dx <= 4_000_000_000_000_000_000_000_000) by (nonlinear_arith)
            requires
                -2_000_000_000_000 <= dx <= 2_000_000_000_000,
        ;
        assert(dy * dy <= 4_000_000_000_000_000_000_000_000) by (nonlinear_arith)
            requires
                -2_000_000_000_000 <= dy <= 2_000_000_000_000,
        ;
        assert(dz * dz <= 4_000_000_000_000_000_000_000_000) by (nonlinear_arith)
            requires
                -2_000_000_000_000 <= dz <= 2_000_000_000_000,
        ;
        lemma_square_nonneg(dx as int);
        lemma_square_nonneg(dy as int);
        lemma_square_nonneg(dz as int);
    }
    let n: u128 = (dx * dx) as u128 + (dy * dy) as u128 + (dz * dz) as u128;
    let ghost ni: int = dx * dx + dy * dy + dz * dz;
    assert(n == ni);
    if n == 0 {
        return Vec3::zero();
    }
    let l: u128 = ceil_sqrt(n);
    let s: i128 = speed as i128;
    proof {
        lemma_ceil_sqrt_is(ni, l as int);
        lemma_seek_axis_bound(dx as int, l as int, s as int);
        lemma_seek_axis_bound(dy as int, l as int, s as int);
        lemma_seek_axis_bound(dz as int, l as int, s as int);
        assert(dx * s <= 2_000_000_000_000_000_000_000_000) by (nonlinear_arith)
            requires
                -2_000_000_000_000 <= dx <= 2_000_000_000_000,
                -1_000_000_000_000 <= s <= 1_000_000_000_000,
        ;
        assert(dx * s >= -2_000_000_000_000_000_000_000_000) by (nonlinear_arith)
            requires
                -2_000_000_000_000 <= dx <= 2_000_000_000_000,
                -1_000_000_000_000 <= s <= 1_000_000_000_000,
        ;
        assert(dy * s <= 2_000_000_000_000_000_000_000_000) by (nonlinear_arith)
            requires
                -2_000_000_000_000 <= dy <= 2_000_000_000_000,
                -1_000_000_000_000 <= s <= 1_000_000_000_000,
        ;
        assert(dy * s >= -2_000_000_000_000_000_000_000_000) by (nonlinear_arith)
            requires
                -2_000_000_000_000 <= dy <= 2_000_000_000_000,
                -1_000_000_000_000 <= s <= 1_000_000_000_000,
        ;
        assert(dz * s <= 2_000_000_000_000_000_000_000_000) by (nonlinear_arith)
            requires
                -2_000_000_000_000 <= dz <= 2_000_000_000_000,
                -1_000_000_000_000 <= s <= 1_000_000_000_000,
        ;
        assert(dz * s >= -2_000_000_000_000_000_000_000_000) by (nonlinear_arith)
            requires
                -2_000_000_000_000 <= dz <= 2_000_000_000_000,
                -1_000_000_000_000 <= s <= 1_000_000_000_000,
        ;
    }
    let vx: i128 = div_trunc_i128(dx * s, l as i128);
    let vy: i128 = div_trunc_i128(dy * s, l as i128);
    let vz: i128 = div_trunc_i128(dz * s, l as i128);
    Vec3 { x: vx as i64, y: vy as i64, z: vz as i64 }
}

/// Which direction keys are held this frame.
#[derive(Clone, Copy, Debug, PartialEq, Eq, Structural)]
pub struct KeyState {
    pub up: bool,
    pub down: bool,
    pub left: bool,
    pub right: bool,
}

/// `speed` when the key is held, else zero.
pub open spec fn key_term(held: bool, speed: int) -> int {
    if held {
        speed
    } else {
        0
    }
}

/// The velocity that the held keys ask for: each axis independently gains
/// `speed` for one key and loses it for the opposite one.
pub open spec fn input_velocity_spec(keys: KeyState, speed: int) -> Vec3 {
    Vec3 {
        x: (key_term(keys.right, speed) - key_term(keys.left, speed)) as i64,
        y: (key_term(keys.up, speed) - key_term(keys.down, speed)) as i64,
        z: 0,
    }
}

/// The velocity that the held keys ask for.
pub fn input_velocity(keys: KeyState, speed: i64) -> (v: Vec3)
    requires
        -SPEED_LIMIT <= speed <= SPEED_LIMIT,
    ensures
        v == input_velocity_spec(keys, speed as int),
        v.bounded(abs(speed as int)),
{
    let mut v = Vec3::zero();
    if keys.right {
        v.x = v.x + speed;
    }
    if keys.left {
        v.x = v.x - speed;
    }
    if keys.up {
        v.y = v.y + speed;
    }
    if keys.down {
        v.y = v.y - speed;
    }
    v
}

/// Fixed-point time units per second: frame times are in microseconds.
pub const MICROS_PER_SECOND: i64 = 1_000_000;

/// Longest frame time accepted, in microseconds.
pub const DT_LIMIT: i64 = 1_000_000_000;

/// Keeps a coordinate inside the representable world.
pub open spec fn clamp_coord(a: int) -> int {
    if a > COORD_LIMIT {
        COORD_LIMIT as int
    } else if a < -COORD_LIMIT {
        -COORD_LIMIT
    } else {
        a
    }
}

/// One axis moved by `v` for `dt` microseconds.
pub open spec fn advance_axis(p: int, v: int, dt: int) -> int {
    clamp_coord(p + div_trunc(v * dt, MICROS_PER_SECOND as int))
}

/// A position moved by velocity `v` for `dt` microseconds.
pub open spec fn advance_spec(p: Vec3, v: Vec3, dt: int) -> Vec3 {
    Vec3 {
        x: advance_axis(p.x as int, v.x as int, dt) as i64,
        y: advance_axis(p.y as int, v.y as int, dt) as i64,
        z: advance_axis(p.z as int, v.z as int, dt) as i64,
    }
}

fn advance_coord(p: i64, v: i64, dt: i64) -> (r: i64)
    requires
        -COORD_LIMIT <= p <= COORD_LIMIT,
        -SPEED_LIMIT <= v <= SPEED_LIMIT,
        0 <= dt <= DT_LIMIT,
    ensures
        r == advance_axis(p as int, v as int, dt as int),
{
    assert(-1_000_000_000_000_000_000_000 <= v * dt <= 1_000_000_000_000_000_000_000) by (nonlinear_arith)
        requires
            -SPEED_LIMIT <= v <= SPEED_LIMIT,
            0 <= dt <= DT_LIMIT,
    ;
    let moved: i128 = div_trunc_i128(v as i128 * dt as i128, MICROS_PER_SECOND as i128);
    proof {
        lemma_div_trunc_bounds(v * dt, MICROS_PER_SECOND as int);
    }
    let a: i128 = p as i128 + moved;
    if a > COORD_LIMIT as i128 {
        COORD_LIMIT
    } else if a < -COORD_LIMIT as i128 {
        -COORD_LIMIT
    } else {
        a as i64
    }
}

/// A position moved by velocity `v` for `dt` microseconds.
pub fn advance(p: Vec3, v: Vec3, dt: i64) -> (r: Vec3)
    requires
        p.bounded(COORD_LIMIT as int),
        v.bounded(SPEED_LIMIT as int),
        0 <= dt <= DT_LIMIT,
    ensures
        r == advance_spec(p, v, dt as int),
        r.bounded(COORD_LIMIT as int),
{
    Vec3 { x: advance_coord(p.x, v.x, dt), y: advance_coord(p.y, v.y, dt), z: advance_coord(p.z, v.z, dt) }
}

/// The linear map of `[from_lo, from_hi]` onto `[to_lo, to_hi]` at `v`,
/// rounded down.
pub open spec fn remap_spec(v: int, from_lo: int, from_hi: int, to_lo: int, to_hi: int) -> int {
    to_lo + (v - from_lo) * (to_hi - to_lo) / (from_hi - from_lo)
}

/// Largest magnitude of a bound or value handed to `remap`.
pub const REMAP_LIMIT: i64 = 1_000_000_000;

/// Maps `v` linearly from `[from_lo, from_hi]` onto `[to_lo, to_hi]`.
pub fn remap(v: i64, from_lo: i64, from_hi: i64, to_lo: i64, to_hi: i64) -> (r: i64)
    requires
        from_lo <= v <= from_hi,
        from_lo < from_hi,
        to_lo <= to_hi,
        -REMAP_LIMIT <= from_lo,
        from_hi <= REMAP_LIMIT,
        -REMAP_LIMIT <= to_lo,
        to_hi <= REMAP_LIMIT,
    ensures
        r == remap_spec(v as int, from_lo as int, from_hi as int, to_lo as int, to_hi as int),
        to_lo <= r <= to_hi,
{
    let a: i128 = v as i128 - from_lo as i128;
    let w: i128 = from_hi as i128 - from_lo as i128;
    let h: i128 = to_hi as i128 - to_lo as i128;
    assert(0 <= a * h <= w * h) by (nonlinear_arith)
        requires
            0 <= a <= w,
            0 <= h,
    ;
    assert(w * h <= 4_000_000_000_000_000_000) by (nonlinear_arith)
        requires
            0 < w <= 2_000_000_000,
            0 <= h <= 2_000_000_000,
    ;
    let q: i128 = a * h / w;
    proof {
        let (ai, wi, hi) = (a as int, w as int, h as int);
        vstd::arithmetic::div_mod::lemma_div_is_ordered(ai * hi, wi * hi, wi);
        vstd::arithmetic::div_mod::lemma_div_pos_is_pos(ai * hi, wi);
        assert(wi * hi / wi == hi) by {
            vstd::arithmetic::mul::lemma_mul_is_commutative(wi, hi);
            vstd::arithmetic::div_mod::lemma_div_multiples_vanish(hi, wi);
        }
    }
    (to_lo as i128 + q) as i64
}

/// Largest tilt of the walk bob, in fixed-point radians.
pub const BOB_TILT: i64 = 40;

/// Vertical scale of the walk bob at the bottom of its swing.
pub const BOB_SQUASH: i64 = 800;

/// Vertical scale of the walk bob at the top of its swing.
pub const BOB_STRETCH: i64 = 1100;

/// The tilt of the walk bob at `phase` (a sine value in `[-ONE, ONE]`).
pub open spec fn bob_rotation_spec(phase: int) -> int {
    remap_spec(phase, -ONE, ONE as int, -BOB_TILT, BOB_TILT as int)
}

/// The vertical scale of the walk bob at `phase` (a sine value in `[-ONE, ONE]`).
pub open spec fn bob_scale_spec(phase: int) -> int {
    remap_spec(phase, -ONE, ONE as int, BOB_SQUASH as int, BOB_STRETCH as int)
}

/// The tilt and vertical scale of the walk bob at `phase`.
pub fn bob_pose(phase: i64) -> (r: (i64, i64))
    requires
        -ONE <= phase <= ONE,
    ensures
        r.0 == bob_rotation_spec(phase as int),
        r.1 == bob_scale_spec(phase as int),
        -BOB_TILT <= r.0 <= BOB_TILT,
        BOB_SQUASH <= r.1 <= BOB_STRETCH,
{
    (remap(phase, -ONE, ONE, -BOB_TILT, BOB_TILT), remap(phase, -ONE, ONE, BOB_SQUASH, BOB_STRETCH))
}

/// The camera closes this fraction's reciprocal of the gap each frame: a
/// factor of one hundredth.
pub const FOLLOW_DIVISOR: i64 = 100;

/// One axis of the camera's follow step: a hundredth of the gap, rounded
/// toward zero.
pub open spec fn follow_axis(c: int, t: int) -> int {
    c + div_trunc(t - c, FOLLOW_DIVISOR as int)
}

/// The camera position `c` moved a hundredth of the way toward `t`.
pub open spec fn follow_spec(c: Vec3, t: Vec3) -> Vec3 {
    Vec3 {
        x: follow_axis(c.x as int, t.x as int) as i64,
        y: follow_axis(c.y as int, t.y as int) as i64,
        z: follow_axis(c.z as int, t.z as int) as i64,
    }
}

/// A follow step lands between the camera and its target.
pub proof fn lemma_follow_axis_between(c: int, t: int)
    ensures
        c <= t ==> c <= follow_axis(c, t) <= t,
        t <= c ==> t <= follow_axis(c, t) <= c,
{
    lemma_div_trunc_bounds(t - c, FOLLOW_DIVISOR as int);
}

fn follow_coord(c: i64, t: i64) -> (r: i64)
    requires
        -COORD_LIMIT <= c <= COORD_LIMIT,
        -COORD_LIMIT <= t <= COORD_LIMIT,
    ensures
        r == follow_axis(c as int, t as int),
{
    proof {
        lemma_follow_axis_between(c as int, t as int);
    }
    let step: i128 = div_trunc_i128(t as i128 - c as i128, FOLLOW_DIVISOR as i128);
    (c as i128 + step) as i64
}

/// The camera position `c` moved a hundredth of the way toward `t`.
pub fn follow(c: Vec3, t: Vec3) -> (r: Vec3)
    requires
        c.bounded(COORD_LIMIT as int),
        t.bounded(COORD_LIMIT as int),
    ensures
        r == follow_spec(c, t),
        r.bounded(COORD_LIMIT as int),
{
    proof {
        lemma_follow_axis_between(c.x as int, t.x as int);
        lemma_follow_axis_between(c.y as int, t.y as int);
        lemma_follow_axis_between(c.z as int, t.z as int);
    }
    Vec3 { x: follow_coord(c.x, t.x), y: follow_coord(c.y, t.y), z: follow_coord(c.z, t.z) }
}

} // verus!

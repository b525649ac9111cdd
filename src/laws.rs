//! What holds of the rules over every input.
use vstd::prelude::*;
use crate::fixed::{ceil_sqrt_spec, div_trunc, is_ceil_sqrt, lemma_div_trunc_bounds, Vec3, COORD_LIMIT, ONE, SPEED_LIMIT};
use crate::motion::{abs, follow_axis, follow_spec, lemma_follow_axis_between, seek_velocity_spec, KeyState};
use crate::world::{
    depth_spec, input_spec, integrate_spec, seek_spec, world_wf, Entity,
};

verus! {

/// `q` is `a / l` rounded toward zero: within one `l` of `a` and no larger
/// in magnitude.
pub open spec fn scaled_toward_zero(q: int, a: int, l: int) -> bool {
    abs(q * l - a) < l && abs(q * l) <= abs(a) && q * a >= 0
}

proof fn lemma_div_trunc_scaled(a: int, l: int)
    requires
        l > 0,
    ensures
        scaled_toward_zero(div_trunc(a, l), a, l),
{
    lemma_div_trunc_bounds(a, l);
    let q = div_trunc(a, l);
    if a >= 0 {
        assert(q * a >= 0) by (nonlinear_arith)
            requires
                q >= 0,
                a >= 0,
        ;
        assert(q * l >= 0) by (nonlinear_arith)
            requires
                q >= 0,
                l >= 0,
        ;
    } else {
        assert(q * a >= 0) by (nonlinear_arith)
            requires
                q <= 0,
                a < 0,
        ;
        assert(q * l <= 0) by (nonlinear_arith)
            requires
                q <= 0,
                l >= 0,
        ;
    }
    assert((q + 1) * l == q * l + l) by (nonlinear_arith);
    assert((q - 1) * l == q * l - l) by (nonlinear_arith);
}

proof fn lemma_square_of_scaled(q: int, d: int, s: int, l: int)
    requires
        l > 0,
        abs(q * l) <= abs(d * s),
    ensures
        q * q * (l * l) <= d * d * (s * s),
{
    let x = abs(q * l);
    let y = abs(d * s);
    assert(x * x <= y * y) by (nonlinear_arith)
        requires
            0 <= x <= y,
    ;
    assert(x * x == q * q * (l * l)) by (nonlinear_arith)
        requires
            x == q * l || x == -(q * l),
    ;
    assert(y * y == d * d * (s * s)) by (nonlinear_arith)
        requires
            y == d * s || y == -(d * s),
    ;
}

proof fn lemma_rounded_up_square(q: int, a: int, l: int)
    requires
        l > 0,
        scaled_toward_zero(q, a, l),
    ensures
        (abs(q) + 1) * (abs(q) + 1) * (l * l) > a * a,
{
    assert(abs(q * l) == abs(q) * l) by (nonlinear_arith)
        requires
            l > 0,
            abs(q * l) == q * l || abs(q * l) == -(q * l),
            abs(q) == q || abs(q) == -q,
            abs(q) >= 0,
            abs(q * l) >= 0,
    ;
    let x = abs(q) + 1;
    assert(abs(a) < x * l) by (nonlinear_arith)
        requires
            abs(q * l) == abs(q) * l,
            abs(q * l) <= abs(a),
            abs(q * l - a) < l,
            q * a >= 0,
            abs(q * l - a) == q * l - a || abs(q * l - a) == -(q * l - a),
            abs(a) == a || abs(a) == -a,
            abs(q * l) == q * l || abs(q * l) == -(q * l),
            x == abs(q) + 1,
            l > 0,
    ;
    assert(x * x * (l * l) > a * a) by (nonlinear_arith)
        requires
            0 <= abs(a) < x * l,
            abs(a) == a || abs(a) == -a,
    ;
}

/// Seeking heads straight for the target at the walk speed, as far as
/// fixed point allows: with no offset the velocity is zero; otherwise each
/// axis is the offset scaled by `speed / len` and rounded toward zero, where
/// `len` is the length of the offset rounded up, so the velocity keeps the
/// offset's direction on every axis and is never faster than `speed`; and,
/// each axis grown by the unit that rounding may have cost it, no slower
/// than `speed * (len - 1) / len`.
pub proof fn lemma_seek_heads_for_target(from: Vec3, to: Vec3, speed: int)
    requires
        from.bounded(COORD_LIMIT as int),
        to.bounded(COORD_LIMIT as int),
        -SPEED_LIMIT <= speed <= SPEED_LIMIT,
    ensures
        ({
            let v = seek_velocity_spec(from, to, speed);
            let dx = to.x - from.x;
            let dy = to.y - from.y;
            let dz = to.z - from.z;
            let len = ceil_sqrt_spec(dx * dx + dy * dy + dz * dz);
            &&& from == to ==> v.is_zero()
            &&& from != to ==> {
                &&& is_ceil_sqrt(dx * dx + dy * dy + dz * dz, len)
                &&& len > 0
                &&& scaled_toward_zero(v.x as int, dx * speed, len)
                &&& scaled_toward_zero(v.y as int, dy * speed, len)
                &&& scaled_toward_zero(v.z as int, dz * speed, len)
                &&& v.norm_sq() <= speed * speed
                &&& ((abs(v.x as int) + 1) * (abs(v.x as int) + 1) + (abs(v.y as int) + 1) * (abs(
                    v.y as int,
                ) + 1) + (abs(v.z as int) + 1) * (abs(v.z as int) + 1)) * (len * len) > speed
                    * speed * ((len - 1) * (len - 1))
            }
        }),
{
    let v = seek_velocity_spec(from, to, speed);
    let dx = to.x - from.x;
    let dy = to.y - from.y;
    let dz = to.z - from.z;
    let n = dx * dx + dy * dy + dz * dz;
    crate::motion::lemma_square_nonneg(dx);
    crate::motion::lemma_square_nonneg(dy);
    crate::motion::lemma_square_nonneg(dz);
    if from != to {
        assert(n > 0) by {
            if dx != 0 {
                assert(dx * dx > 0) by (nonlinear_arith)
                    requires
                        dx != 0,
                ;
            } else if dy != 0 {
                assert(dy * dy > 0) by (nonlinear_arith)
                    requires
                        dy != 0,
                ;
            } else {
                assert(dz != 0);
                assert(dz * dz > 0) by (nonlinear_arith)
                    requires
                        dz != 0,
                ;
            }
        }
        crate::fixed::lemma_ceil_sqrt_exists(n as nat);
        let l = ceil_sqrt_spec(n);
        assert(is_ceil_sqrt(n, l));
        assert(l > 0);
        crate::motion::lemma_seek_axis_bound(dx, l, speed);
        crate::motion::lemma_seek_axis_bound(dy, l, speed);
        crate::motion::lemma_seek_axis_bound(dz, l, speed);
        lemma_div_trunc_scaled(dx * speed, l);
        lemma_div_trunc_scaled(dy * speed, l);
        lemma_div_trunc_scaled(dz * speed, l);
        let qx = div_trunc(dx * speed, l);
        let qy = div_trunc(dy * speed, l);
        let qz = div_trunc(dz * speed, l);
        assert(v.x == qx && v.y == qy && v.z == qz);
        lemma_square_of_scaled(qx, dx, speed, l);
        lemma_square_of_scaled(qy, dy, speed, l);
        lemma_square_of_scaled(qz, dz, speed, l);
        let m = qx * qx + qy * qy + qz * qz;
        let ss = speed * speed;
        crate::motion::lemma_square_nonneg(qx);
        crate::motion::lemma_square_nonneg(qy);
        crate::motion::lemma_square_nonneg(qz);
        crate::motion::lemma_square_nonneg(speed);
        assert(m * (l * l) <= n * ss) by (nonlinear_arith)
            requires
                qx * qx * (l * l) <= dx * dx * ss,
                qy * qy * (l * l) <= dy * dy * ss,
                qz * qz * (l * l) <= dz * dz * ss,
                m == qx * qx + qy * qy + qz * qz,
                n == dx * dx + dy * dy + dz * dz,
        ;
        lemma_rounded_up_square(qx, dx * speed, l);
        lemma_rounded_up_square(qy, dy * speed, l);
        lemma_rounded_up_square(qz, dz * speed, l);
        let gx = abs(qx) + 1;
        let gy = abs(qy) + 1;
        let gz = abs(qz) + 1;
        let l2 = l * l;
        assert((dx * speed) * (dx * speed) == dx * dx * ss) by (nonlinear_arith)
            requires
                ss == speed * speed,
        ;
        assert((dy * speed) * (dy * speed) == dy * dy * ss) by (nonlinear_arith)
            requires
                ss == speed * speed,
        ;
        assert((dz * speed) * (dz * speed) == dz * dz * ss) by (nonlinear_arith)
            requires
                ss == speed * speed,
        ;
        assert(dx * dx * ss + dy * dy * ss + dz * dz * ss == n * ss) by (nonlinear_arith)
            requires
                n == dx * dx + dy * dy + dz * dz,
        ;
        assert((gx * gx + gy * gy + gz * gz) * l2 == gx * gx * l2 + gy * gy * l2 + gz * gz * l2)
            by (nonlinear_arith);
        assert((gx * gx + gy * gy + gz * gz) * l2 > n * ss);
        assert(n * ss >= ss * ((l - 1) * (l - 1))) by (nonlinear_arith)
            requires
                (l - 1) * (l - 1) < n,
                ss >= 0,
        ;
        assert(m <= ss) by (nonlinear_arith)
            requires
                l > 0,
                m * (l * l) <= n * ss,
                n <= l * l,
                ss >= 0,
                m >= 0,
        ;
    }
}

/// Every seeking entity of a well-formed world leaves the seek rule with the
/// velocity that heads for its target: see `lemma_seek_heads_for_target`.
pub proof fn lemma_seek_rule_heads_for_target(es: Seq<Entity>, i: int)
    requires
        world_wf(es),
        0 <= i < es.len(),
        es[i].velocity is Some,
        es[i].walk_speed is Some,
        es[i].seek_target is Some,
        es[i].seek_target->0 < es.len(),
    ensures
        seek_spec(es)[i].velocity == Some(
            seek_velocity_spec(
                es[i].position,
                es[es[i].seek_target->0 as int].position,
                es[i].walk_speed->0 as int,
            ),
        ),
        seek_spec(es)[i].position == es[i].position,
{
    let t = es[i].seek_target->0 as int;
    assert(es[i].wf() && es[t].wf());
    lemma_seek_heads_for_target(es[i].position, es[t].position, es[i].walk_speed->0 as int);
}

/// The input rule depends on the held keys alone: running it a second time
/// with the same keys changes nothing.
pub proof fn lemma_input_idempotent(es: Seq<Entity>, keys: KeyState)
    ensures
        input_spec(input_spec(es, keys), keys) == input_spec(es, keys),
{
    assert(input_spec(input_spec(es, keys), keys) =~= input_spec(es, keys));
}

/// An entity at rest leaves the integration rule in the idle pose, upright and
/// unsquashed, whatever its pose was before and whatever the bob phase.
pub proof fn lemma_idle_pose(es: Seq<Entity>, dt: int, phases: Seq<i64>, i: int)
    requires
        0 <= i < es.len(),
        es[i].velocity is Some,
        es[i].velocity->0.is_zero(),
    ensures
        integrate_spec(es, dt, phases)[i].rotation_z == 0,
        integrate_spec(es, dt, phases)[i].scale.y == ONE,
        integrate_spec(es, dt, phases)[i].scale.x == es[i].scale.x,
{
}

/// The depth rule draws every entity but the camera at minus its height and
/// moves nothing else; the camera is left exactly as it was.
pub proof fn lemma_depth(es: Seq<Entity>, i: int)
    requires
        world_wf(es),
        0 <= i < es.len(),
    ensures
        !es[i].is_camera ==> depth_spec(es)[i].position.z == -es[i].position.y,
        depth_spec(es)[i].position.x == es[i].position.x,
        depth_spec(es)[i].position.y == es[i].position.y,
        es[i].is_camera ==> depth_spec(es)[i] == es[i],
{
    assert(es[i].wf());
}

/// A follow step on one axis never reaches a target that it has not reached,
/// never overshoots, and never moves away: the gap keeps its sign and does not
/// grow.
pub proof fn lemma_follow_axis_never_arrives(c: int, t: int)
    ensures
        c != t ==> follow_axis(c, t) != t,
        c < t ==> c <= follow_axis(c, t) < t,
        t < c ==> t < follow_axis(c, t) <= c,
        c == t ==> follow_axis(c, t) == t,
{
    lemma_follow_axis_between(c, t);
    lemma_div_trunc_bounds(t - c, 100);
}

/// The camera, following a target that it is not at, is still not at it after
/// the step: it closes in geometrically but never lands exactly.
pub proof fn lemma_follow_never_arrives(c: Vec3, t: Vec3)
    requires
        c.bounded(COORD_LIMIT as int),
        t.bounded(COORD_LIMIT as int),
        c != t,
    ensures
        follow_spec(c, t) != t,
{
    lemma_follow_axis_never_arrives(c.x as int, t.x as int);
    lemma_follow_axis_never_arrives(c.y as int, t.y as int);
    lemma_follow_axis_never_arrives(c.z as int, t.z as int);
    lemma_follow_axis_between(c.x as int, t.x as int);
    lemma_follow_axis_between(c.y as int, t.y as int);
    lemma_follow_axis_between(c.z as int, t.z as int);
}

} // verus!

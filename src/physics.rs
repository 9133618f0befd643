//! What one tick does to one drop: gravity, shrinking, trail fragments,
//! smear decay and movement, then merging and damping.
//!
//! Each stage is a spec function over the drop and the random fractions it
//! drew, and an executable function proved equal to it.
use vstd::prelude::*;
use crate::drop::Drop;
use crate::fixed::{
    add_val, clamp_val, clamp_wide, decay, decay_factor, floor_div, in_range, isqrt, lemma_mul_bound, max_int, min_int, sqrt_floor,
    mul3_div, mul_div, sub_val, LIMIT, UNIT,
};
use crate::options::RainDropsOptions;
use crate::random::{is_fraction, DropDraws};

verus! {

/// Radius under which gravity never gives a drop a kick.
pub open spec fn fall_threshold(o: RainDropsOptions) -> int {
    clamp_val(o.r.0 * o.drop_fall_multiplier / UNIT as int)
}

/// The kick fires with chance `(r - fall) * (0.1 / delta_r) * dt`.
pub open spec fn flicker_fires(o: RainDropsOptions, d: Drop, dt: int, u: int) -> bool {
    u * 10 * (o.r.1 - o.r.0) < (d.r - fall_threshold(o)) * dt
}

pub open spec fn gravity(o: RainDropsOptions, d: Drop, dt: int, u_roll: int, u_gain: int) -> Drop {
    if flicker_fires(o, d, dt, u_roll) {
        Drop {
            momentum: clamp_val(d.momentum + clamp_val(u_gain * d.r * 4 / o.r.1 as int)) as i64,
            ..d
        }
    } else {
        d
    }
}

/// A drop no larger than `min_r` starts to shrink faster, with chance
/// `0.05 * dt`.
pub open spec fn auto_shrunk(o: RainDropsOptions, d: Drop, dt: int, u: int) -> Drop {
    if o.auto_shrink && d.r <= o.r.0 && u * 20 < dt {
        Drop { shrink: clamp_val(d.shrink + 10) as i64, ..d }
    } else {
        d
    }
}

/// The radius loses `shrink * dt`; a drop left without radius is killed.
pub open spec fn shrunk(d: Drop, dt: int) -> Drop {
    let r = clamp_val(d.r - clamp_val(d.shrink * dt / UNIT as int));
    Drop { r: r as i64, killed: r <= 0, ..d }
}

/// The trail distance grows by `momentum * dt * trail_rate`.
pub open spec fn accumulated(d: Drop, dt: int, trail_rate: int) -> Drop {
    Drop {
        last_spawn: clamp_val(
            d.last_spawn + clamp_val(d.momentum * dt * trail_rate / (UNIT * UNIT) as int),
        ) as i64,
        ..d
    }
}

pub open spec fn trail_due(d: Drop) -> bool {
    d.last_spawn > d.next_spawn
}

/// Radius of a trail fragment: the parent's radius times a scale drawn from
/// the trail scale range.
pub open spec fn trail_radius(o: RainDropsOptions, d: Drop, u_scale: int) -> int {
    clamp_val(
        d.r * (o.trail_scale_range[0] * UNIT + u_scale * (o.trail_scale_range[1]
            - o.trail_scale_range[0])) / (UNIT * UNIT) as int,
    )
}

/// The fragment that `d` sheds: just above it, jittered sideways by up to a
/// tenth of its radius, smeared by its speed. It is killed at birth when its
/// radius is not positive.
pub open spec fn trail_child(o: RainDropsOptions, d: Drop, u_jit: int, u_scale: int, id: u64) -> Drop {
    let r = trail_radius(o, d, u_scale);
    Drop {
        x: clamp_val(d.x + d.r * (2 * u_jit - UNIT) / (10 * UNIT) as int) as i64,
        y: clamp_val(d.y - d.r / 100) as i64,
        r: r as i64,
        spread_y: (d.momentum / 10) as i64,
        parent: Some(d.id),
        id,
        killed: r <= 0,
        ..Drop::blank()
    }
}

/// The parent after shedding a fragment: its radius shrinks by `0.97^dt`, the
/// trail distance restarts and a new threshold is drawn.
pub open spec fn after_trail(o: RainDropsOptions, d: Drop, dt: int, u: int) -> Drop {
    let r = d.r * decay_factor(970, dt) / UNIT as int;
    let next = clamp_val(
        o.r.0 + clamp_val(u * (o.r.1 - o.r.0) / UNIT as int) - clamp_val(
            d.momentum * 2 * o.trail_rate / UNIT as int,
        ) + (o.r.1 - r),
    );
    Drop { r: r as i64, last_spawn: 0, next_spawn: next as i64, killed: r <= 0, ..d }
}

/// Smear decays by `0.4^dt` sideways and `0.7^dt` vertically.
pub open spec fn spread_decayed(d: Drop, dt: int) -> Drop {
    Drop {
        spread_x: (d.spread_x * decay_factor(400, dt) / UNIT as int) as i64,
        spread_y: (d.spread_y * decay_factor(700, dt) / UNIT as int) as i64,
        ..d
    }
}

/// A drop with momentum moves; one that falls below `height + r` is killed.
pub open spec fn moved(o: RainDropsOptions, d: Drop, height: int) -> Drop {
    if d.momentum > 0 {
        let y = clamp_val(d.y + clamp_val(d.momentum * o.global_time_scale / UNIT as int));
        let x = clamp_val(d.x + clamp_val(d.momentum_x * o.global_time_scale / UNIT as int));
        Drop { x: x as i64, y: y as i64, killed: y > height + d.r, ..d }
    } else {
        d
    }
}

/// The drop and the trail fragment it may shed, after every stage of a tick
/// that comes before merging. Once a drop is killed, no later stage applies.
pub open spec fn advanced(
    o: RainDropsOptions,
    d: Drop,
    dt: int,
    height: int,
    spawn_ok: bool,
    w: DropDraws,
    id: u64,
) -> (Drop, Option<Drop>) {
    let d1 = auto_shrunk(o, gravity(o, d, dt, w.flicker as int, w.gain as int), dt, w.shrink as int);
    let d2 = shrunk(d1, dt);
    if d2.killed {
        (d2, None)
    } else {
        let (d3, child) = if o.raining {
            let a = accumulated(d2, dt, o.trail_rate as int);
            if trail_due(a) && spawn_ok {
                let c = trail_child(o, a, w.jitter as int, w.trail_scale as int, id);
                (after_trail(o, a, dt, w.spawn as int), if c.killed { None } else { Some(c) })
            } else {
                (a, None)
            }
        } else {
            (d2, None)
        };
        if d3.killed {
            (d3, child)
        } else {
            (moved(o, spread_decayed(d3, dt), height), child)
        }
    }
}

/// Siblings, and two drops that both came from the rain, share a parent.
pub open spec fn shares_parent(a: Drop, b: Drop) -> bool {
    a.parent == b.parent
}

/// One of the two drops shed the other as a trail fragment.
pub open spec fn parent_and_child(a: Drop, b: Drop) -> bool {
    b.parent == Some(a.id) || a.parent == Some(b.id)
}

/// How close two drops must come to merge: their summed radii times the
/// collision radius, widened by the larger one's speed.
pub open spec fn merge_reach(o: RainDropsOptions, a: Drop, b: Drop, dt: int) -> int {
    clamp_val(
        (a.r + b.r) * clamp_val(
            o.collision_radius + clamp_val(
                a.momentum * o.collision_radius_increase * dt / (UNIT * UNIT * UNIT) as int,
            ),
        ) / UNIT as int,
    )
}

pub open spec fn collides(o: RainDropsOptions, a: Drop, b: Drop, dt: int) -> bool {
    let reach = merge_reach(o, a, b, dt);
    &&& a.r > b.r
    &&& !b.killed
    &&& !shares_parent(a, b)
    &&& !parent_and_child(a, b)
    &&& reach > 0
    &&& (b.x - a.x) * (b.x - a.x) + (b.y - a.y) * (b.y - a.y) < reach * reach
}

/// `min(max_r, sqrt(r1^2 + 0.8 * r2^2))`.
pub open spec fn merged_radius(o: RainDropsOptions, a: Drop, b: Drop) -> int {
    min_int(o.r.1 as int, isqrt(a.r * a.r + 4 * b.r * b.r / 5))
}

pub open spec fn merged_momentum(o: RainDropsOptions, a: Drop, b: Drop) -> int {
    max_int(
        b.momentum as int,
        min_int(
            40 * UNIT,
            a.momentum + clamp_val(merged_radius(o, a, b) * o.collision_boost_multiplier / UNIT as int)
                + o.collision_boost,
        ),
    )
}

/// `a` after absorbing `b`.
pub open spec fn merged(o: RainDropsOptions, a: Drop, b: Drop) -> Drop {
    Drop {
        r: merged_radius(o, a, b) as i64,
        momentum_x: clamp_val(a.momentum_x + (b.x - a.x) / 10) as i64,
        spread_x: 0,
        spread_y: 0,
        momentum: merged_momentum(o, a, b) as i64,
        ..a
    }
}

/// Momentum loses `max(1, min_r / 2 - momentum) * 0.1 * dt`, never going
/// below zero; sideways momentum decays by `0.7^dt`.
pub open spec fn damped(o: RainDropsOptions, d: Drop, dt: int) -> Drop {
    let loss = clamp_val(max_int(UNIT as int, o.r.0 / 2 - d.momentum) * dt / (10 * UNIT) as int);
    Drop {
        momentum: max_int(0, d.momentum - loss) as i64,
        momentum_x: (d.momentum_x * decay_factor(700, dt) / UNIT as int) as i64,
        ..d
    }
}

pub fn gravity_step(o: &RainDropsOptions, d: Drop, dt: i64, u_roll: i64, u_gain: i64) -> (r: Drop)
    requires
        o.wf(),
        d.wf(),
        d.r > 0,
        0 <= dt <= LIMIT,
        is_fraction(u_roll),
        is_fraction(u_gain),
    ensures
        r == gravity(*o, d, dt as int, u_roll as int, u_gain as int),
        r.wf(),
        r.r == d.r,
{
    let fall = mul_div(o.r.0, o.drop_fall_multiplier, UNIT);
    proof {
        lemma_mul_bound(u_roll as int * 10, (o.r.1 - o.r.0) as int, 10 * UNIT, 2 * LIMIT);
        lemma_mul_bound((d.r - fall) as int, dt as int, 2 * LIMIT, LIMIT as int);
    }
    let lhs: i128 = u_roll as i128 * 10 * (o.r.1 as i128 - o.r.0 as i128);
    let rhs: i128 = (d.r as i128 - fall as i128) * dt as i128;
    if lhs < rhs {
        let gain = mul3_div(u_gain, d.r, 4, o.r.1);
        proof {
            assert(u_gain * d.r * 4 >= 0) by (nonlinear_arith)
                requires
                    u_gain >= 0,
                    d.r >= 0,
            ;
        }
        Drop { momentum: add_val(d.momentum, gain), ..d }
    } else {
        d
    }
}

pub fn auto_shrink_step(o: &RainDropsOptions, d: Drop, dt: i64, u: i64) -> (r: Drop)
    requires
        d.wf(),
        0 <= dt <= LIMIT,
        is_fraction(u),
    ensures
        r == auto_shrunk(*o, d, dt as int, u as int),
        r.wf(),
        r.r == d.r,
{
    if o.auto_shrink && d.r <= o.r.0 && u * 20 < dt {
        Drop { shrink: add_val(d.shrink, 10), ..d }
    } else {
        d
    }
}

pub fn shrink_step(d: Drop, dt: i64) -> (r: Drop)
    requires
        d.wf(),
        0 <= dt <= LIMIT,
    ensures
        r == shrunk(d, dt as int),
        r.wf(),
        r.r <= d.r,
        r.killed <==> r.r <= 0,
{
    let loss = mul_div(d.shrink, dt, UNIT);
    proof {
        assert(d.shrink * dt >= 0) by (nonlinear_arith)
            requires
                d.shrink >= 0,
                dt >= 0,
        ;
    }
    let r = sub_val(d.r, loss);
    Drop { r, killed: r <= 0, ..d }
}

/// Adds this tick's distance to the trail accumulator.
pub fn accumulate_trail(d: Drop, dt: i64, trail_rate: i64) -> (r: Drop)
    requires
        d.wf(),
        0 <= dt <= LIMIT,
        in_range(trail_rate as int),
    ensures
        r == accumulated(d, dt as int, trail_rate as int),
        r.wf(),
{
    let gain = mul3_div(d.momentum, dt, trail_rate, UNIT * UNIT);
    Drop { last_spawn: add_val(d.last_spawn, gain), ..d }
}

pub fn shed_fragment(o: &RainDropsOptions, d: Drop, u_jit: i64, u_scale: i64, id: u64) -> (c: Drop)
    requires
        o.wf(),
        d.wf(),
        d.r > 0,
        is_fraction(u_jit),
        is_fraction(u_scale),
    ensures
        c == trail_child(*o, d, u_jit as int, u_scale as int, id),
        c.wf(),
        o.trails_shrink() ==> c.r <= d.r,
{
    let lo = o.trail_scale_range[0];
    let hi = o.trail_scale_range[1];
    proof {
        lemma_mul_bound(u_scale as int, hi - lo, UNIT as int, 2 * LIMIT);
        lemma_mul_bound(d.r as int, lo * UNIT + u_scale * (hi - lo), LIMIT as int, 3 * LIMIT * UNIT);
        lemma_mul_bound(d.r as int, 2 * u_jit - UNIT, LIMIT as int, UNIT as int);
    }
    let scale: i128 = lo as i128 * 1000 + u_scale as i128 * (hi as i128 - lo as i128);
    let r = clamp_wide(floor_div(d.r as i128 * scale, 1_000_000));
    let jitter: i128 = floor_div(d.r as i128 * (2 * u_jit as i128 - 1000), 10_000);
    let x = clamp_wide(d.x as i128 + jitter);
    let y = clamp_wide(d.y as i128 - d.r as i128 / 100);
    proof {
        if o.trails_shrink() {
            assert(scale <= UNIT * UNIT) by (nonlinear_arith)
                requires
                    scale == lo * UNIT + u_scale * (hi - lo),
                    lo <= UNIT,
                    hi <= UNIT,
                    0 <= u_scale < UNIT,
            ;
            assert(d.r * scale <= d.r * (UNIT * UNIT)) by (nonlinear_arith)
                requires
                    scale <= UNIT * UNIT,
                    d.r > 0,
            ;
        }
    }
    Drop {
        x,
        y,
        r,
        spread_y: d.momentum / 10,
        parent: Some(d.id),
        id,
        killed: r <= 0,
        ..Drop::new()
    }
}

pub fn after_trail_step(o: &RainDropsOptions, d: Drop, dt: i64, u: i64) -> (r: Drop)
    requires
        o.wf(),
        d.wf(),
        d.r > 0,
        0 <= dt <= LIMIT,
        is_fraction(u),
    ensures
        r == after_trail(*o, d, dt as int, u as int),
        r.wf(),
        r.r <= d.r,
        r.killed <==> r.r <= 0,
{
    let f = decay(970, dt);
    proof {
        assert(0 <= d.r * f <= d.r * UNIT) by (nonlinear_arith)
            requires
                0 <= f <= UNIT,
                d.r > 0,
        ;
    }
    let r: i64 = d.r * f / UNIT;
    let spread = mul_div(u, o.r.1 - o.r.0, UNIT);
    let pull = mul3_div(d.momentum, 2, o.trail_rate, UNIT);
    let next = clamp_wide(o.r.0 as i128 + spread as i128 - pull as i128 + (o.r.1 as i128 - r as i128));
    Drop { r, last_spawn: 0, next_spawn: next, killed: r <= 0, ..d }
}

pub fn spread_step(d: Drop, dt: i64) -> (r: Drop)
    requires
        d.wf(),
        0 <= dt <= LIMIT,
    ensures
        r == spread_decayed(d, dt as int),
        r.wf(),
        r == (Drop { spread_x: r.spread_x, spread_y: r.spread_y, ..d }),
{
    let fx = decay(400, dt);
    let fy = decay(700, dt);
    proof {
        assert(0 <= d.spread_x * fx <= d.spread_x * UNIT) by (nonlinear_arith)
            requires
                0 <= fx <= UNIT,
                d.spread_x >= 0,
        ;
        assert(0 <= d.spread_y * fy <= d.spread_y * UNIT) by (nonlinear_arith)
            requires
                0 <= fy <= UNIT,
                d.spread_y >= 0,
        ;
    }
    Drop { spread_x: d.spread_x * fx / UNIT, spread_y: d.spread_y * fy / UNIT, ..d }
}

pub fn move_step(o: &RainDropsOptions, d: Drop, height: i64) -> (r: Drop)
    requires
        o.wf(),
        d.wf(),
    ensures
        r == moved(*o, d, height as int),
        r.wf(),
        r.r == d.r,
        r.momentum == d.momentum,
        d.momentum > 0 ==> (r.killed <==> r.y > height + r.r),
        d.momentum <= 0 ==> r == d,
{
    if d.momentum > 0 {
        let y = add_val(d.y, mul_div(d.momentum, o.global_time_scale, UNIT));
        let x = add_val(d.x, mul_div(d.momentum_x, o.global_time_scale, UNIT));
        Drop { x, y, killed: y as i128 > height as i128 + d.r as i128, ..d }
    } else {
        d
    }
}

/// Runs every stage of a tick that comes before merging on a live drop.
/// `spawn_ok` says whether the live set has room for a trail fragment, which
/// would get the id `id`.
pub fn advance(
    o: &RainDropsOptions,
    d: Drop,
    dt: i64,
    height: i64,
    spawn_ok: bool,
    w: &DropDraws,
    id: u64,
) -> (res: (Drop, Option<Drop>))
    requires
        o.wf(),
        d.wf(),
        d.r > 0,
        !d.killed,
        0 <= dt <= LIMIT,
        w.wf(),
    ensures
        res == advanced(*o, d, dt as int, height as int, spawn_ok, *w, id),
        res.0.wf(),
        res.0.r <= d.r,
        res.0.killed <==> (res.0.r <= 0 || (res.0.momentum > 0 && res.0.y > height + res.0.r)),
        res.0.id == d.id,
        res.0.parent == d.parent,
        res.0.is_new == d.is_new,
        res.1 is Some ==> {
            let c = res.1->Some_0;
            &&& c.wf()
            &&& c.r > 0
            &&& !c.killed
            &&& c.is_new
            &&& c.id == id
            &&& c.parent == Some(d.id)
            &&& spawn_ok
            &&& o.raining
            &&& (o.trails_shrink() ==> c.r <= d.r)
        },
{
    let d1 = auto_shrink_step(o, gravity_step(o, d, dt, w.flicker, w.gain), dt, w.shrink);
    let d2 = shrink_step(d1, dt);
    if d2.killed {
        return (d2, None);
    }
    let mut d3 = d2;
    let mut child: Option<Drop> = None;
    if o.raining {
        let a = accumulate_trail(d2, dt, o.trail_rate);
        if a.last_spawn > a.next_spawn && spawn_ok {
            let c = shed_fragment(o, a, w.jitter, w.trail_scale, id);
            d3 = after_trail_step(o, a, dt, w.spawn);
            if !c.killed {
                child = Some(c);
            }
        } else {
            d3 = a;
        }
    }
    if d3.killed {
        return (d3, child);
    }
    (move_step(o, spread_step(d3, dt), height), child)
}

/// Tries to merge `b` into `a`. On a merge `a` takes the merged radius and
/// momentum and `b` is killed; otherwise neither changes.
pub fn collide(o: &RainDropsOptions, a: &mut Drop, b: &mut Drop, dt: i64) -> (hit: bool)
    requires
        o.wf(),
        old(a).wf(),
        old(b).wf(),
        old(a).r > 0,
        0 <= dt <= LIMIT,
    ensures
        hit == collides(*o, *old(a), *old(b), dt as int),
        shares_parent(*old(a), *old(b)) ==> !hit,
        parent_and_child(*old(a), *old(b)) ==> !hit,
        hit ==> *final(a) == merged(*o, *old(a), *old(b)),
        hit ==> final(a).r == merged_radius(*o, *old(a), *old(b)),
        hit ==> final(a).momentum == merged_momentum(*o, *old(a), *old(b)),
        hit ==> old(a).r > old(b).r && final(b).killed,
        hit ==> *final(b) == (Drop { killed: true, ..*old(b) }),
        !hit ==> *final(a) == *old(a) && *final(b) == *old(b),
        final(a).wf(),
        final(b).wf(),
        0 < final(a).r <= max_int(old(a).r as int, o.r.1 as int),
{
    if !(a.r > b.r) || b.killed {
        return false;
    }
    let same_parent = match (a.parent, b.parent) {
        (Some(p), Some(q)) => p == q,
        (None, None) => true,
        _ => false,
    };
    if same_parent {
        return false;
    }
    let family = match (a.parent, b.parent) {
        (_, Some(q)) if q == a.id => true,
        (Some(p), _) if p == b.id => true,
        _ => false,
    };
    if family {
        return false;
    }
    let widen = mul3_div(a.momentum, o.collision_radius_increase, dt, UNIT * UNIT * UNIT);
    let factor = add_val(o.collision_radius, widen);
    proof {
        lemma_mul_bound(a.r + b.r, factor as int, 2 * LIMIT, LIMIT as int);
    }
    let reach = clamp_wide(floor_div((a.r as i128 + b.r as i128) * factor as i128, 1000));
    if reach <= 0 {
        return false;
    }
    let dx: i64 = b.x - a.x;
    let dy: i64 = b.y - a.y;
    proof {
        lemma_mul_bound(dx as int, dx as int, 2 * LIMIT, 2 * LIMIT);
        lemma_mul_bound(dy as int, dy as int, 2 * LIMIT, 2 * LIMIT);
        lemma_mul_bound(reach as int, reach as int, LIMIT as int, LIMIT as int);
    }
    let dist2: i128 = dx as i128 * dx as i128 + dy as i128 * dy as i128;
    if !(dist2 < reach as i128 * reach as i128) {
        return false;
    }
    proof {
        lemma_mul_bound(a.r as int, a.r as int, LIMIT as int, LIMIT as int);
        lemma_mul_bound(b.r as int, b.r as int, LIMIT as int, LIMIT as int);
        assert(b.r * b.r >= 0) by (nonlinear_arith);
        assert(a.r * a.r >= 0) by (nonlinear_arith);
    }
    let area: i128 = a.r as i128 * a.r as i128 + 4 * (b.r as i128 * b.r as i128) / 5;
    assert(4 * (b.r * b.r) / 5 == 4 * b.r * b.r / 5) by (nonlinear_arith);
    let root = sqrt_floor(area as u128);
    proof {
        assert(root >= a.r) by (nonlinear_arith)
            requires
                (root + 1) * (root + 1) > area,
                area >= a.r * a.r,
                a.r > 0,
                root >= 0,
        ;
    }
    let r: i64 = if root as i128 > o.r.1 as i128 { o.r.1 } else { root as i64 };
    let boost = mul_div(r, o.collision_boost_multiplier, UNIT);
    let pushed: i64 = a.momentum + boost + o.collision_boost;
    let capped: i64 = if pushed < 40 * UNIT { pushed } else { 40 * UNIT };
    let momentum: i64 = if b.momentum >= capped { b.momentum } else { capped };
    let momentum_x = clamp_wide(a.momentum_x as i128 + floor_div(dx as i128, 10));
    *a = Drop { r, momentum_x, spread_x: 0, spread_y: 0, momentum, ..*a };
    b.killed = true;
    true
}

pub fn damp(o: &RainDropsOptions, d: Drop, dt: i64) -> (r: Drop)
    requires
        o.wf(),
        d.wf(),
        0 <= dt <= LIMIT,
    ensures
        r == damped(*o, d, dt as int),
        r.wf(),
        r.r == d.r,
{
    let half: i64 = o.r.0 / 2 - d.momentum;
    let base: i64 = if half > UNIT { half } else { UNIT };
    proof {
        lemma_mul_bound(base as int, dt as int, LIMIT as int, LIMIT as int);
    }
    let loss = clamp_wide(floor_div(base as i128 * dt as i128, 10_000));
    let m: i64 = if d.momentum - loss > 0 { d.momentum - loss } else { 0 };
    let f = decay(700, dt);
    proof {
        lemma_mul_bound(d.momentum_x as int, f as int, LIMIT as int, UNIT as int);
    }
    let mx = floor_div(d.momentum_x as i128 * f as i128, 1000) as i64;
    Drop { momentum: m, momentum_x: mx, ..d }
}

} // verus!

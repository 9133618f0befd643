//! What a tick asks the host to paint. Positions and sizes are in
//! thousandths of a surface pixel.
use vstd::prelude::*;
use crate::drop::Drop;
use crate::fixed::{add_val, clamp_val, in_range, max_int, min_int, mul3_div, mul_div, sub_val, UNIT};
use crate::options::RainDropsOptions;

verus! {

/// Number of images in the sprite atlas.
pub const SPRITE_COUNT: usize = 256;

/// One image of the sprite atlas drawn into a rectangle.
#[derive(Clone, Copy, Debug, PartialEq, Eq)]
pub struct Sprite {
    pub index: usize,
    pub x: i64,
    pub y: i64,
    pub w: i64,
    pub h: i64,
}

/// A rectangle in which the clear stencil erases the ambient layer.
#[derive(Clone, Copy, Debug, PartialEq, Eq)]
pub struct Patch {
    pub x: i64,
    pub y: i64,
    pub w: i64,
    pub h: i64,
}

/// Everything one tick paints, in order: fade the ambient layer by `fade`
/// (an opacity in thousandths) if set, draw `droplets` onto it, composite it
/// onto the cleared main surface, then erase `clears` from the ambient layer
/// and draw `drops` onto the main surface.
#[derive(Debug)]
pub struct Frame {
    pub fade: Option<i64>,
    pub droplets: Vec<Sprite>,
    pub clears: Vec<Patch>,
    pub drops: Vec<Sprite>,
}

/// Atlas index of a drop: its depth `clamp((r - min_r) / delta_r * 0.9, 0, 1)`,
/// divided by `1 + (spread_x + spread_y) / 2`, scaled to `0..=255`.
pub open spec fn sprite_index(o: RainDropsOptions, d: Drop) -> int {
    let depth = min_int(max_int((d.r - o.r.0) * 900 / (o.r.1 - o.r.0) as int, 0), UNIT as int);
    510 * depth / (2000 + d.spread_x + d.spread_y)
}

/// The sprite of a drop: centred on it, widened by its smear and stretched
/// one and a half times vertically, scaled to surface pixels by `scale`.
pub open spec fn sprite_of(o: RainDropsOptions, scale: int, d: Drop) -> Sprite {
    let sx = clamp_val(d.spread_x + UNIT);
    let sy = clamp_val(d.spread_y + UNIT);
    Sprite {
        index: sprite_index(o, d) as usize,
        x: clamp_val(clamp_val(d.x - clamp_val(d.r * sx / UNIT as int)) * scale / UNIT as int) as i64,
        y: clamp_val(clamp_val(d.y - clamp_val(d.r * 1500 * sy / (UNIT * UNIT) as int)) * scale
            / UNIT as int) as i64,
        w: clamp_val(clamp_val(d.r * 2000 * sx / (UNIT * UNIT) as int) * scale / UNIT as int) as i64,
        h: clamp_val(clamp_val(d.r * 3000 * sy / (UNIT * UNIT) as int) * scale / UNIT as int) as i64,
    }
}

/// The area that a drop of clearing radius `r` at `(x, y)` wipes from the
/// ambient layer.
pub open spec fn patch_of(scale: int, x: int, y: int, r: int) -> Patch {
    Patch {
        x: clamp_val(clamp_val(x - r) * scale / UNIT as int) as i64,
        y: clamp_val(clamp_val(y - r) * scale / UNIT as int) as i64,
        w: clamp_val(r * 2 * scale / UNIT as int) as i64,
        h: clamp_val(r * 3 * scale / UNIT as int) as i64,
    }
}

pub fn sprite_for(o: &RainDropsOptions, scale: i64, d: &Drop) -> (s: Sprite)
    requires
        o.wf(),
        d.wf(),
        in_range(scale as int),
    ensures
        s == sprite_of(*o, scale as int, *d),
        s.index < SPRITE_COUNT,
{
    let depth: i64 = if d.r <= o.r.0 {
        assert((d.r - o.r.0) * 900 / (o.r.1 - o.r.0) as int <= 0) by (nonlinear_arith)
            requires
                d.r <= o.r.0,
                o.r.1 > o.r.0,
        ;
        0
    } else {
        let raw: i64 = (d.r - o.r.0) * 900 / (o.r.1 - o.r.0);
        if raw > UNIT { UNIT } else { raw }
    };
    assert(depth == min_int(max_int((d.r - o.r.0) * 900 / (o.r.1 - o.r.0) as int, 0), UNIT as int));
    let spread: i64 = 2000 + d.spread_x + d.spread_y;
    assert(510 * depth as int / spread as int <= 255) by (nonlinear_arith)
        requires
            0 <= depth <= 1000,
            spread >= 2000,
    ;
    let sx = add_val(d.spread_x, UNIT);
    let sy = add_val(d.spread_y, UNIT);
    Sprite {
        index: (510 * depth / spread) as usize,
        x: mul_div(sub_val(d.x, mul_div(d.r, sx, UNIT)), scale, UNIT),
        y: mul_div(sub_val(d.y, mul3_div(d.r, 1500, sy, UNIT * UNIT)), scale, UNIT),
        w: mul_div(mul3_div(d.r, 2000, sx, UNIT * UNIT), scale, UNIT),
        h: mul_div(mul3_div(d.r, 3000, sy, UNIT * UNIT), scale, UNIT),
    }
}

pub fn patch_for(scale: i64, x: i64, y: i64, r: i64) -> (p: Patch)
    requires
        in_range(scale as int),
        in_range(x as int),
        in_range(y as int),
        in_range(r as int),
    ensures
        p == patch_of(scale as int, x as int, y as int, r as int),
{
    Patch {
        x: mul_div(sub_val(x, r), scale, UNIT),
        y: mul_div(sub_val(y, r), scale, UNIT),
        w: mul3_div(r, 2, scale, UNIT),
        h: mul3_div(r, 3, scale, UNIT),
    }
}

} // verus!

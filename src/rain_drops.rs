//! The simulation engine: owns the live drops and advances them one tick at
//! a time.
use vstd::prelude::*;
use crate::drop::Drop;
use crate::fixed::{
    add_val, clamp_val, clamp_wide, floor_div, in_range, isqrt, lemma_mul_bound, max_int, min_int,
    mul3_div, mul_div, sqrt_floor, sub_val, LIMIT, UNIT,
};
use crate::options::RainDropsOptions;
use crate::pass::{run, scan, window_end, Pass, TickEnv};
use crate::physics::{advance, collide, collides, damp};
use crate::random::{uniform_below, unit_draw, DropDraws};
use crate::render::{patch_for, sprite_for, sprite_of, Frame, Patch, Sprite, SPRITE_COUNT};
use crate::weather::WeatherOptions;

verus! {

/// Pixels of the reference area (1024 x 768) that rates are given for.
pub const REFERENCE_AREA: i64 = 786_432;

/// Drops after each drop, in sort order, that it may merge with.
pub const COLLISION_WINDOW: usize = 70;

/// Countdown that a request to clear the ambient layer starts, in
/// thousandths of a tick.
pub const CLEANING_TICKS: i64 = 50_000;

/// Length of a tick in thousandths of a frame at 60 frames per second, for
/// a wall-clock gap of `delta` thousandths of a millisecond: at most 1.1
/// frames, times the multiplier.
pub open spec fn tick_length(delta: int, multiplier: int) -> int {
    clamp_val(min_int(max_int(delta, 0) * 60 / UNIT as int, 1100) * multiplier / UNIT as int)
}

/// Converts a wall-clock gap to a tick length.
pub fn time_scale(delta: i64, multiplier: i64) -> (dt: i64)
    requires
        0 <= multiplier <= LIMIT,
    ensures
        dt == tick_length(delta as int, multiplier as int),
        0 <= dt <= 1100 * multiplier / 1000,
{
    let frames: i128 = if delta <= 0 { 0 } else { delta as i128 * 60 / 1000 };
    let capped: i64 = if frames > 1100 { 1100 } else { frames as i64 };
    assert(0 <= capped * multiplier <= 1100 * multiplier) by (nonlinear_arith)
        requires
            0 <= capped <= 1100,
            0 <= multiplier,
    ;
    mul_div(capped, multiplier, UNIT)
}

/// `d` keeps the identity (id and parent) of a drop of `s`.
pub open spec fn descends_from(d: Drop, s: Seq<Drop>) -> bool {
    exists|j: int| 0 <= j < s.len() && s[j].id == d.id && s[j].parent == d.parent
}

/// Sort key of a drop: `y * width + x`, top to bottom and left to right.
pub open spec fn sort_key(d: Drop, width: int) -> int {
    d.y * width / UNIT as int + d.x
}

pub open spec fn sorted_by_key(s: Seq<Drop>, width: int) -> bool {
    forall|i: int, j: int| 0 <= i < j < s.len() ==> sort_key(s[i], width) <= sort_key(s[j], width)
}

fn key_of(d: &Drop, width: i64) -> (k: i128)
    requires
        d.wf(),
        in_range(width as int),
    ensures
        k == sort_key(*d, width as int),
{
    proof {
        lemma_mul_bound(d.y as int, width as int, LIMIT as int, LIMIT as int);
    }
    floor_div(d.y as i128 * width as i128, 1000) + d.x as i128
}

/// `out` is `v` reordered by `p` (`out[k] == v[p[k]]`, each index of `v`
/// used once), sorted by key, with drops of equal key in their order in `v`.
pub open spec fn sorts_stably(v: Seq<Drop>, out: Seq<Drop>, p: Seq<int>, width: int) -> bool {
    &&& out.len() == v.len()
    &&& p.len() == v.len()
    &&& forall|k: int| 0 <= k < p.len() ==> 0 <= #[trigger] p[k] < v.len() && out[k] == v[p[k]]
    &&& forall|a: int, b: int| 0 <= a < b < p.len() ==> p[a] != p[b]
    &&& sorted_by_key(out, width)
    &&& forall|a: int, b: int|
        0 <= a < b < out.len() && sort_key(out[a], width) == sort_key(out[b], width) ==> p[a] < p[b]
}

/// `out` is the stable sort of `v` by `sort_key`.
pub open spec fn stable_sort_of(v: Seq<Drop>, out: Seq<Drop>, width: int) -> bool {
    exists|p: Seq<int>| sorts_stably(v, out, p, width)
}

/// The drops in order of `sort_key`, equal keys keeping their order.
pub fn sort_drops(v: &Vec<Drop>, width: i64) -> (out: Vec<Drop>)
    requires
        forall|k: int| 0 <= k < v.len() ==> (#[trigger] v@[k]).wf(),
        in_range(width as int),
    ensures
        stable_sort_of(v@, out@, width as int),
        out.len() == v.len(),
        sorted_by_key(out@, width as int),
        forall|k: int| 0 <= k < out.len() ==> v@.contains(#[trigger] out@[k]),
{
    let mut out: Vec<Drop> = Vec::new();
    let ghost mut p: Seq<int> = Seq::empty();
    let mut i: usize = 0;
    while i < v.len()
        invariant
            i <= v.len(),
            forall|k: int| 0 <= k < v.len() ==> (#[trigger] v@[k]).wf(),
            in_range(width as int),
            out.len() == i,
            p.len() == i,
            forall|k: int| 0 <= k < p.len() ==> 0 <= #[trigger] p[k] < i && out@[k] == v@[p[k]],
            forall|a: int, b: int| 0 <= a < b < p.len() ==> p[a] != p[b],
            sorted_by_key(out@, width as int),
            forall|a: int, b: int|
                0 <= a < b < out.len() && sort_key(out@[a], width as int) == sort_key(out@[b], width as int)
                    ==> p[a] < p[b],
            forall|k: int| 0 <= k < out.len() ==> (#[trigger] out@[k]).wf(),
        decreases v.len() - i,
    {
        let d = v[i];
        let k = key_of(&d, width);
        let mut pos: usize = 0;
        loop
            invariant
                pos <= out.len(),
                forall|q: int| 0 <= q < pos ==> sort_key(#[trigger] out@[q], width as int) <= k,
                forall|k: int| 0 <= k < out.len() ==> (#[trigger] out@[k]).wf(),
                in_range(width as int),
                k == sort_key(d, width as int),
            ensures
                pos <= out.len(),
                forall|q: int| 0 <= q < pos ==> sort_key(#[trigger] out@[q], width as int) <= k,
                pos < out.len() ==> sort_key(out@[pos as int], width as int) > k,
            decreases out.len() - pos,
        {
            if pos >= out.len() {
                break;
            }
            if key_of(&out[pos], width) > k {
                break;
            }
            pos = pos + 1;
        }
        let ghost before = out@;
        let ghost pb = p;
        out.insert(pos, d);
        proof {
            p = pb.insert(pos as int, i as int);
            assert(out@ =~= before.insert(pos as int, d));
            assert forall|a: int, b: int| 0 <= a < b < out.len() implies sort_key(out@[a], width as int)
                <= sort_key(out@[b], width as int) by {
                if b < pos {
                } else if b == pos {
                } else if a < pos {
                    assert(out@[b] == before[b - 1]);
                } else if a == pos {
                    assert(out@[b] == before[b - 1]);
                    assert(sort_key(before[pos as int], width as int) <= sort_key(before[b - 1], width as int));
                } else {
                    assert(out@[b] == before[b - 1]);
                    assert(out@[a] == before[a - 1]);
                }
            }
            assert forall|q: int| 0 <= q < p.len() implies 0 <= #[trigger] p[q] < i + 1 && out@[q] == v@[p[q]] by {
                if q > pos {
                    assert(out@[q] == before[q - 1]);
                    assert(p[q] == pb[q - 1]);
                }
            }
            assert forall|a: int, b: int| 0 <= a < b < p.len() implies p[a] != p[b] by {
                if a < pos && b > pos {
                    assert(p[b] == pb[b - 1]);
                } else if a > pos {
                    assert(p[b] == pb[b - 1]);
                    assert(p[a] == pb[a - 1]);
                } else if a == pos {
                    assert(p[b] == pb[b - 1]);
                }
            }
            assert forall|a: int, b: int|
                0 <= a < b < out.len() && sort_key(out@[a], width as int) == sort_key(out@[b], width as int)
                implies p[a] < p[b] by {
                if b < pos {
                } else if b == pos {
                    assert(pb[a] < i);
                } else if a < pos {
                    assert(out@[b] == before[b - 1]);
                    assert(p[b] == pb[b - 1]);
                    assert(sort_key(before[pos as int], width as int) <= sort_key(before[b - 1], width as int));
                } else if a == pos {
                    assert(out@[b] == before[b - 1]);
                    assert(sort_key(before[pos as int], width as int) <= sort_key(before[b - 1], width as int));
                } else {
                    assert(out@[b] == before[b - 1]);
                    assert(out@[a] == before[a - 1]);
                    assert(p[b] == pb[b - 1]);
                    assert(p[a] == pb[a - 1]);
                }
            }
            assert forall|q: int| 0 <= q < out.len() implies (#[trigger] out@[q]).wf() by {
                if q > pos {
                    assert(out@[q] == before[q - 1]);
                }
            }
        }
        i = i + 1;
    }
    proof {
        assert(sorts_stably(v@, out@, p, width as int));
        assert forall|k: int| 0 <= k < out.len() implies v@.contains(#[trigger] out@[k]) by {
            assert(v@[p[k]] == out@[k]);
        }
    }
    out
}

pub struct RainDrops {
    opts: RainDropsOptions,
    /// Surface size in pixels.
    width: i64,
    height: i64,
    /// Surface pixels per simulation unit, in thousandths.
    scale: i64,
    /// Time of the last tick, in thousandths of a millisecond.
    last_time: i64,
    /// Countdown of the ambient layer's fade.
    cleaning_iterations: i64,
    /// Ambient droplets owed, in thousandths.
    droplets_counter: i64,
    drops: Vec<Drop>,
    next_id: u64,
}

impl RainDrops {
    pub closed spec fn spec_opts(&self) -> RainDropsOptions {
        self.opts
    }

    pub closed spec fn spec_width(&self) -> int {
        self.width as int
    }

    pub closed spec fn spec_height(&self) -> int {
        self.height as int
    }

    pub closed spec fn spec_scale(&self) -> int {
        self.scale as int
    }

    pub closed spec fn spec_last_time(&self) -> int {
        self.last_time as int
    }

    pub closed spec fn cleaning(&self) -> int {
        self.cleaning_iterations as int
    }

    pub closed spec fn counter(&self) -> int {
        self.droplets_counter as int
    }

    /// The live drops.
    pub closed spec fn live(&self) -> Seq<Drop> {
        self.drops@
    }

    /// The id that the next drop will get.
    pub closed spec fn spec_next_id(&self) -> u64 {
        self.next_id
    }

    /// A live drop: well formed, alive, with a positive radius, an id already
    /// handed out, and a parent older than itself.
    pub open spec fn live_drop(d: Drop, next_id: u64) -> bool {
        &&& d.wf()
        &&& !d.killed
        &&& d.r > 0
        &&& d.id < next_id
        &&& (d.parent matches Some(p) ==> p < d.id)
    }

    pub open spec fn wf(&self) -> bool {
        &&& self.spec_opts().wf()
        &&& 0 <= self.spec_width() <= LIMIT
        &&& 0 <= self.spec_height() <= LIMIT
        &&& 0 <= self.spec_scale() <= LIMIT
        &&& in_range(self.cleaning())
        &&& 0 <= self.counter() <= LIMIT
        &&& forall|i: int|
            0 <= i < self.live().len() ==> Self::live_drop(#[trigger] self.live()[i], self.spec_next_id())
    }

    /// No live drop is larger than the largest radius of the options.
    pub open spec fn radii_bounded(&self) -> bool {
        forall|i: int| 0 <= i < self.live().len() ==> #[trigger] self.live()[i].r <= self.spec_opts().r.1
    }

    /// The scale, with zero read as one.
    pub open spec fn effective_scale(&self) -> int {
        if self.spec_scale() == 0 {
            UNIT as int
        } else {
            self.spec_scale()
        }
    }

    /// Simulation width and height, in thousandths of a unit.
    pub open spec fn sim_width(&self) -> int {
        clamp_val(self.spec_width() * 1_000_000 / self.effective_scale())
    }

    pub open spec fn sim_height(&self) -> int {
        clamp_val(self.spec_height() * 1_000_000 / self.effective_scale())
    }

    /// The surface's area in pixels, divided by the scale.
    pub open spec fn spec_area(&self) -> int {
        clamp_val(self.spec_width() * self.spec_height() * 1000 / self.effective_scale())
    }

    /// `sqrt(area / (1024 * 768))`, in thousandths.
    pub open spec fn spec_area_multiplier(&self) -> int {
        isqrt(clamp_val(self.spec_area() * 1_000_000 / REFERENCE_AREA as int))
    }

    /// Cap on the live drops: `max_drops * area_multiplier`, rounded down.
    pub open spec fn cap(&self) -> int {
        clamp_val(self.spec_opts().max_drops * self.spec_area_multiplier() / UNIT as int)
    }

    pub open spec fn spec_is_full(&self) -> bool {
        self.live().len() >= self.cap()
    }

    /// How many drops one tick of length `dt` may spawn.
    pub open spec fn spawn_limit(&self, dt: int) -> int {
        clamp_val(self.spec_opts().rain_limit * dt * self.spec_area_multiplier() / 1_000_000_000)
    }

    /// Chance, in thousandths, that one more drop spawns in a tick of length
    /// `dt`.
    pub open spec fn spawn_chance(&self, dt: int) -> int {
        clamp_val(self.spec_opts().rain_chance * dt * self.spec_area_multiplier() / 1_000_000)
    }

    /// An engine for a surface of `w` by `h` pixels at `scale` pixels per
    /// unit (in thousandths), started at time `now`, with no drops.
    pub fn new(w: i64, h: i64, scale: i64, opts: Option<RainDropsOptions>, now: i64) -> (e: RainDrops)
        requires
            0 <= w <= LIMIT,
            0 <= h <= LIMIT,
            0 <= scale <= LIMIT,
            opts matches Some(o) ==> o.wf(),
        ensures
            e.wf(),
            e.live().len() == 0,
            e.spec_opts() == match opts {
                Some(o) => o,
                None => RainDropsOptions::defaults(),
            },
            e.spec_width() == w,
            e.spec_height() == h,
            e.spec_scale() == scale,
            e.spec_last_time() == now,
            e.cleaning() == 0,
            e.counter() == 0,
            e.spec_next_id() == 0,
    {
        let opts = match opts {
            Some(o) => o,
            None => RainDropsOptions::new(),
        };
        RainDrops {
            opts,
            width: w,
            height: h,
            scale,
            last_time: now,
            cleaning_iterations: 0,
            droplets_counter: 0,
            drops: Vec::new(),
            next_id: 0,
        }
    }

    pub fn opts(&self) -> (o: &RainDropsOptions)
        ensures
            *o == self.spec_opts(),
    {
        &self.opts
    }

    /// The live drops.
    pub fn drops(&self) -> (d: &Vec<Drop>)
        ensures
            d@ == self.live(),
    {
        &self.drops
    }

    pub fn cleaning_iterations(&self) -> (c: i64)
        ensures
            c == self.cleaning(),
    {
        self.cleaning_iterations
    }

    fn effective_scale_exec(&self) -> (s: i64)
        requires
            self.wf(),
        ensures
            s == self.effective_scale(),
            0 < s <= LIMIT,
    {
        if self.scale == 0 { UNIT } else { self.scale }
    }

    pub fn area(&self) -> (a: i64)
        requires
            self.wf(),
        ensures
            a == self.spec_area(),
            0 <= a <= LIMIT,
    {
        let s = self.effective_scale_exec();
        assert(self.width * self.height * 1000 >= 0) by (nonlinear_arith)
            requires
                self.width >= 0,
                self.height >= 0,
        ;
        mul3_div(self.width, self.height, 1000, s)
    }

    pub fn area_multiplier(&self) -> (m: i64)
        requires
            self.wf(),
        ensures
            m == self.spec_area_multiplier(),
            0 <= m <= 1_000_000,
    {
        let a = self.area();
        let q = mul_div(a, 1_000_000, REFERENCE_AREA);
        assert(a * 1_000_000 >= 0) by (nonlinear_arith)
            requires
                a >= 0,
        ;
        let m = sqrt_floor(q as u128);
        assert(m <= 1_000_000) by (nonlinear_arith)
            requires
                m * m <= q,
                q <= LIMIT,
                m >= 0,
        ;
        m as i64
    }

    pub fn delta_r(&self) -> (d: i64)
        requires
            self.wf(),
        ensures
            d == self.spec_opts().r.1 - self.spec_opts().r.0,
            d > 0,
    {
        self.opts.r.1 - self.opts.r.0
    }

    pub fn is_full_drops(&self) -> (full: bool)
        requires
            self.wf(),
        ensures
            full == self.spec_is_full(),
    {
        let am = self.area_multiplier();
        let cap = mul_div(self.opts.max_drops as i64, am, UNIT);
        self.drops.len() as i128 >= cap as i128
    }

    /// Starts fading out the ambient layer.
    pub fn clear_texture(&mut self)
        requires
            old(self).wf(),
        ensures
            final(self).wf(),
            final(self).cleaning() == CLEANING_TICKS,
            final(self).live() == old(self).live(),
            final(self).spec_opts() == old(self).spec_opts(),
            final(self).setup() == old(self).setup(),
            final(self).counter() == old(self).counter(),
            final(self).spec_next_id() == old(self).spec_next_id(),
    {
        self.cleaning_iterations = CLEANING_TICKS;
        assert(self.live() == old(self).live());
    }

    /// Switches to a weather profile's options; drops in flight keep their
    /// state.
    pub fn set_options(&mut self, w: &WeatherOptions)
        requires
            old(self).wf(),
            w.wf(),
        ensures
            final(self).wf(),
            final(self).live() == old(self).live(),
            final(self).spec_width() == old(self).spec_width(),
            final(self).spec_height() == old(self).spec_height(),
            final(self).spec_scale() == old(self).spec_scale(),
            final(self).spec_last_time() == old(self).spec_last_time(),
            final(self).cleaning() == old(self).cleaning(),
            final(self).counter() == old(self).counter(),
            final(self).spec_next_id() == old(self).spec_next_id(),
            final(self).spec_opts() == (RainDropsOptions {
                raining: w.raining,
                r: (w.min_r, w.max_r),
                rain_chance: w.rain_chance,
                rain_limit: w.rain_limit,
                droplets_rate: w.droplets_rate,
                droplets_size: (w.droplets_size[0], w.droplets_size[1]),
                trail_rate: w.trail_rate,
                trail_scale_range: w.trail_scale_range,
                collision_radius_increase: w.collision_radius_increase,
                ..old(self).spec_opts()
            }),
    {
        self.opts.raining = w.raining;
        self.opts.r = (w.min_r, w.max_r);
        self.opts.rain_chance = w.rain_chance;
        self.opts.rain_limit = w.rain_limit;
        self.opts.droplets_rate = w.droplets_rate;
        self.opts.droplets_size = (w.droplets_size[0], w.droplets_size[1]);
        self.opts.trail_rate = w.trail_rate;
        self.opts.trail_scale_range = w.trail_scale_range;
        self.opts.collision_radius_increase = w.collision_radius_increase;
        assert(self.live() == old(self).live());
    }

    /// Fixed settings: options, surface size, scale and last tick time.
    pub closed spec fn setup(&self) -> (RainDropsOptions, i64, i64, i64, i64) {
        (self.opts, self.width, self.height, self.scale, self.last_time)
    }

    /// Simulation width in whole units.
    pub open spec fn px_width(&self) -> int {
        clamp_val(self.spec_width() * 1000 / self.effective_scale())
    }

    /// Simulation height in whole units.
    pub open spec fn px_height(&self) -> int {
        clamp_val(self.spec_height() * 1000 / self.effective_scale())
    }

    /// Radius of an ambient droplet for the draw `u`: `min + U^2 * (max - min)`.
    pub open spec fn droplet_radius(&self, u: int) -> int {
        clamp_val(
            self.spec_opts().droplets_size.0 + u * u * (self.spec_opts().droplets_size.1
                - self.spec_opts().droplets_size.0) / 1_000_000,
        )
    }

    /// The sprite of an ambient droplet at `(x, y)` (whole units) drawn with `u`.
    pub open spec fn droplet_at(&self, x: int, y: int, u: int) -> Sprite {
        sprite_of(
            self.spec_opts(),
            self.spec_scale(),
            Drop {
                x: clamp_val(x * 1000) as i64,
                y: clamp_val(y * 1000) as i64,
                r: self.droplet_radius(u) as i64,
                ..Drop::blank()
            },
        )
    }

    /// `s` paints an ambient droplet at a place on the surface with a radius
    /// drawn from the droplet size range.
    pub open spec fn droplet_sprite(&self, s: Sprite) -> bool {
        exists|x: int, y: int, u: int|
            {
                &&& 0 <= u < UNIT
                &&& (self.px_width() > 0 ==> 0 <= x < self.px_width())
                &&& (self.px_width() <= 0 ==> x == 0)
                &&& (self.px_height() > 0 ==> 0 <= y < self.px_height())
                &&& (self.px_height() <= 0 ==> y == 0)
                &&& s == #[trigger] self.droplet_at(x, y, u)
            }
    }

    /// Edges of the spawn band, in whole units.
    pub open spec fn spawn_edge(&self, k: int) -> int {
        clamp_val(self.spec_opts().spawn_area[k] * self.sim_height() / 1_000_000)
    }

    /// Where and how fast a fresh rain drop starts: `x` in `[0, width)`,
    /// `y` in the spawn band, momentum `1 + (r - min) * 0.1 + 2U`, no
    /// sideways momentum.
    pub open spec fn rain_start(&self, d: Drop) -> bool {
        let lo = self.spawn_edge(0);
        let hi = self.spawn_edge(1);
        &&& 0 <= d.x
        &&& (self.px_width() > 0 ==> d.x <= clamp_val((self.px_width() - 1) * 1000))
        &&& (self.px_width() <= 0 ==> d.x == 0)
        &&& clamp_val(lo * 1000) <= d.y
        &&& (hi > lo ==> d.y <= clamp_val((hi - 1) * 1000))
        &&& (hi <= lo ==> d.y == clamp_val(lo * 1000))
        &&& UNIT + (d.r - self.spec_opts().r.0) / 10 <= d.momentum < UNIT + (d.r - self.spec_opts().r.0) / 10 + 2000
        &&& d.momentum_x == 0
        &&& d.last_spawn == 0
        &&& d.next_spawn == 0
        &&& d.shrink == 0
    }

    /// A freshly spawned rain drop.
    pub open spec fn rain_drop(&self, d: Drop, first_id: u64, next_id: u64) -> bool {
        &&& Self::live_drop(d, next_id)
        &&& first_id <= d.id
        &&& d.parent is None
        &&& d.is_new
        &&& self.spec_opts().r.0 <= d.r <= self.spec_opts().r.1
        &&& d.spread_x == 1500
        &&& d.spread_y == 1500
        &&& self.rain_start(d)
    }

    /// Spawns this tick's rain: while a uniform draw is within the spawn
    /// chance and fewer than the spawn limit were drawn, a drop of radius
    /// `min + U^3 * (max - min)` at a random place in the spawn band. A drop is
    /// kept only while the live set and the drops kept so far stay under the
    /// cap.
    pub fn gen_drops(&mut self, dt: i64) -> (out: Vec<Drop>)
        requires
            old(self).wf(),
            0 <= dt <= LIMIT,
        ensures
            final(self).wf(),
            final(self).setup() == old(self).setup(),
            final(self).live() == old(self).live(),
            final(self).cleaning() == old(self).cleaning(),
            final(self).counter() == old(self).counter(),
            old(self).spec_next_id() <= final(self).spec_next_id(),
            out.len() <= old(self).spawn_limit(dt as int),
            !old(self).spec_opts().raining || old(self).spec_is_full() ==> out.len() == 0,
            old(self).live().len() < old(self).cap() ==> old(self).live().len() + out.len() <= old(self).cap(),
            old(self).spec_opts().raining && old(self).spawn_chance(dt as int) >= UNIT
                && old(self).spec_opts().r.0 > 0 && old(self).spec_next_id() + old(self).spawn_limit(dt as int)
                <= u64::MAX && old(self).live().len() + old(self).spawn_limit(dt as int) <= old(self).cap()
                ==> out.len() == old(self).spawn_limit(dt as int),
            final(self).spec_next_id() == old(self).spec_next_id() + out.len(),
            forall|k: int| 0 <= k < out.len() ==> (#[trigger] out@[k]).id == old(self).spec_next_id() + k,
            forall|k: int|
                0 <= k < out.len() ==> old(self).rain_drop(
                    #[trigger] out@[k],
                    old(self).spec_next_id(),
                    final(self).spec_next_id(),
                ),
    {
        let mut out: Vec<Drop> = Vec::new();
        let am = self.area_multiplier();
        let limit = mul3_div(self.opts.rain_limit, dt, am, 1_000_000_000);
        let chance = mul3_div(self.opts.rain_chance, dt, am, 1_000_000);
        let full = self.is_full_drops();
        let cap = mul_div(self.opts.max_drops as i64, am, UNIT);
        let base: usize = self.drops.len();
        let s = self.effective_scale_exec();
        let w_px = mul_div(self.width, 1000, s);
        let h_sim = mul_div(self.height, 1_000_000, s);
        let lo = mul_div(self.opts.spawn_area[0], h_sim, 1_000_000);
        let hi = mul_div(self.opts.spawn_area[1], h_sim, 1_000_000);
        let min_r = self.opts.r.0;
        let max_r = self.opts.r.1;
        let start = self.next_id;
        let mut next_id = self.next_id;
        let mut count: i64 = 0;
        assert(limit >= 0) by (nonlinear_arith)
            requires
                limit == clamp_val(self.opts.rain_limit * dt * am / 1_000_000_000),
                self.opts.rain_limit >= 0,
                dt >= 0,
                am >= 0,
        ;
        if !self.opts.raining {
            return out;
        }
        loop
            invariant
                in_range(lo as int),
                in_range(hi as int),
                in_range(w_px as int),
                min_r < max_r,
                self.wf(),
                self.spec_opts().r.0 == min_r,
                self.spec_opts().r.1 == max_r,
                self.spec_next_id() == start,
                0 <= count <= limit,
                limit == self.spawn_limit(dt as int),
                chance == self.spawn_chance(dt as int),
                full == self.spec_is_full(),
                cap == self.cap(),
                base == self.live().len(),
                w_px == self.px_width(),
                lo == self.spawn_edge(0),
                hi == self.spawn_edge(1),
                out.len() <= count,
                full ==> out.len() == 0,
                base < cap ==> base + out.len() <= cap,
                chance >= UNIT && min_r > 0 && start + limit <= u64::MAX && base + limit <= cap ==> out.len()
                    == count,
                next_id == start + out.len(),
                forall|k: int| 0 <= k < out.len() ==> self.rain_drop(#[trigger] out@[k], start, next_id),
                forall|k: int| 0 <= k < out.len() ==> (#[trigger] out@[k]).id == start + k,
            ensures
                chance >= UNIT ==> count == limit,
            decreases limit - count,
        {
            if count >= limit {
                break;
            }
            let roll = unit_draw();
            if roll > chance {
                break;
            }
            count = count + 1;
            let x = uniform_below(w_px);
            let y = lo + uniform_below(hi - lo);
            let u = unit_draw();
            let span: i64 = max_r - min_r;
            assert(0 <= u * u < 1_000_000) by (nonlinear_arith)
                requires
                    0 <= u < 1000,
            ;
            assert(0 <= u * u * u < 1_000_000_000) by (nonlinear_arith)
                requires
                    0 <= u < 1000,
            ;
            assert(0 <= u * u * u * span <= 1_000_000_000 * span) by (nonlinear_arith)
                requires
                    0 <= u * u * u < 1_000_000_000,
                    span > 0,
            ;
            let grow: i128 = u as i128 * u as i128 * u as i128 * span as i128 / 1_000_000_000;
            assert(grow <= span) by (nonlinear_arith)
                requires
                    grow == u * u * u * span / 1_000_000_000,
                    0 <= u * u * u * span <= 1_000_000_000 * span,
                    span > 0,
            ;
            let r: i64 = min_r + grow as i64;
            let momentum: i64 = UNIT + (r - min_r) / 10 + 2 * unit_draw();
            if (base as i128 + out.len() as i128) < cap as i128 && next_id < u64::MAX && r > 0 {
                let d = Drop {
                    x: clamp_wide(x as i128 * 1000),
                    y: clamp_wide(y as i128 * 1000),
                    r,
                    momentum,
                    spread_x: 1500,
                    spread_y: 1500,
                    id: next_id,
                    ..Drop::new()
                };
                let ghost before = out@;
                out.push(d);
                next_id = next_id + 1;
                assert(forall|k: int| 0 <= k < out.len() - 1 ==> out@[k] == before[k]);
            }
        }
        self.next_id = next_id;
        assert(self.live() == old(self).live());
        assert forall|i: int| 0 <= i < self.live().len() implies Self::live_drop(
            #[trigger] self.live()[i],
            self.spec_next_id(),
        ) by {
            assert(Self::live_drop(old(self).live()[i], old(self).spec_next_id()));
        }
        out
    }

    /// Ambient droplets owed after adding this tick's share,
    /// `droplets_rate * dt * area_multiplier`, in thousandths.
    pub open spec fn owed_droplets(&self, dt: int) -> int {
        clamp_val(
            self.counter() + clamp_val(
                self.spec_opts().droplets_rate * dt * self.spec_area_multiplier() / 1_000_000,
            ),
        )
    }

    /// Advances the ambient layer by one tick. While the clear countdown is
    /// positive it fades the layer by `0.05 * dt` and counts down by `dt`.
    /// While raining it draws one droplet for each whole droplet owed, at a
    /// random place with radius `min + U^2 * (max - min)`, and keeps the
    /// fraction for later.
    pub fn update_droplets(&mut self, dt: i64) -> (res: (Option<i64>, Vec<Sprite>))
        requires
            old(self).wf(),
            0 <= dt <= LIMIT,
        ensures
            final(self).wf(),
            final(self).setup() == old(self).setup(),
            final(self).live() == old(self).live(),
            final(self).spec_next_id() == old(self).spec_next_id(),
            old(self).cleaning() > 0 ==> final(self).cleaning() == clamp_val(old(self).cleaning() - dt)
                && res.0 == Some((dt / 20) as i64),
            old(self).cleaning() <= 0 ==> final(self).cleaning() == old(self).cleaning() && res.0 is None,
            !old(self).spec_opts().raining ==> final(self).counter() == old(self).counter()
                && res.1.len() == 0,
            old(self).spec_opts().raining ==> res.1.len() == old(self).owed_droplets(dt as int) / 1000
                && final(self).counter() == old(self).owed_droplets(dt as int) % 1000,
            forall|k: int| 0 <= k < res.1.len() ==> (#[trigger] res.1@[k]).index < SPRITE_COUNT,
            forall|k: int| 0 <= k < res.1.len() ==> old(self).droplet_sprite(#[trigger] res.1@[k]),
    {
        let mut fade: Option<i64> = None;
        if self.cleaning_iterations > 0 {
            self.cleaning_iterations = sub_val(self.cleaning_iterations, dt);
            fade = Some(dt / 20);
        }
        assert(self.live() == old(self).live());
        let mut sprites: Vec<Sprite> = Vec::new();
        if self.opts.raining {
            let am = self.area_multiplier();
            let share = mul3_div(self.opts.droplets_rate, dt, am, 1_000_000);
            assert(self.opts.droplets_rate * dt * am >= 0) by (nonlinear_arith)
                requires
                    self.opts.droplets_rate >= 0,
                    dt >= 0,
                    am >= 0,
            ;
            let owed = add_val(self.droplets_counter, share);
            let s = self.effective_scale_exec();
            let w_px = mul_div(self.width, 1000, s);
            let h_px = mul_div(self.height, 1000, s);
            let lo = self.opts.droplets_size.0;
            let hi = self.opts.droplets_size.1;
            let mut counter: i64 = owed;
            while counter >= 1000
                invariant
                    0 <= counter <= owed,
                    owed == counter + 1000 * sprites.len(),
                    self.wf(),
                    in_range(lo as int),
                    in_range(hi as int),
                    forall|k: int| 0 <= k < sprites.len() ==> (#[trigger] sprites@[k]).index < SPRITE_COUNT,
                    forall|k: int| 0 <= k < sprites.len() ==> old(self).droplet_sprite(#[trigger] sprites@[k]),
                    self.spec_opts() == old(self).spec_opts(),
                    self.setup() == old(self).setup(),
                    w_px == old(self).px_width(),
                    h_px == old(self).px_height(),
                    lo == old(self).spec_opts().droplets_size.0,
                    hi == old(self).spec_opts().droplets_size.1,
                decreases counter,
            {
                let x = uniform_below(w_px);
                let y = uniform_below(h_px);
                let u = unit_draw();
                assert(0 <= u * u < 1_000_000) by (nonlinear_arith)
                    requires
                        0 <= u < 1000,
                ;
                proof {
                    lemma_mul_bound(u * u, hi - lo, 1_000_000, 2 * LIMIT);
                }
                let grow: i128 = floor_div(u as i128 * u as i128 * (hi as i128 - lo as i128), 1_000_000);
                let r = clamp_wide(lo as i128 + grow);
                let droplet = Drop::at(clamp_wide(x as i128 * 1000), clamp_wide(y as i128 * 1000), r);
                let sprite = sprite_for(&self.opts, self.scale, &droplet);
                assert(sprite == old(self).droplet_at(x as int, y as int, u as int));
                sprites.push(sprite);
                counter = counter - 1000;
            }
            proof {
                vstd::arithmetic::div_mod::lemma_fundamental_div_mod_converse(
                    owed as int,
                    1000,
                    sprites.len() as int,
                    counter as int,
                );
            }
            self.droplets_counter = counter;
        }
        assert(self.live() == old(self).live());
        (fade, sprites)
    }

    /// What a pass over the live drops reads.
    pub open spec fn tick_env(&self, dt: int) -> TickEnv {
        TickEnv {
            o: self.spec_opts(),
            dt,
            height: self.sim_height(),
            scale: self.spec_scale(),
            cap: self.cap(),
            base: self.live().len() as int,
        }
    }

    /// The pass over the live drops of a tick, given this tick's rain, one
    /// set of draws per live drop, and the live drops in sort order.
    pub open spec fn pass_of(&self, dt: int, rain: Seq<Drop>, draws: Seq<DropDraws>, order: Seq<Drop>) -> Pass {
        run(
            self.tick_env(dt),
            Pass {
                live: order,
                kept: rain,
                next_id: (self.spec_next_id() + rain.len()) as u64,
                added: rain.len() as int,
                clears: Seq::empty(),
                sprites: Seq::empty(),
            },
            draws,
            self.live().len(),
        )
    }

    /// `rain` is rain that `gen_drops` may spawn in a tick of length `dt`.
    pub open spec fn valid_rain(&self, dt: int, rain: Seq<Drop>) -> bool {
        &&& rain.len() <= self.spawn_limit(dt)
        &&& (!self.spec_opts().raining || self.spec_is_full() ==> rain.len() == 0)
        &&& (self.live().len() < self.cap() ==> self.live().len() + rain.len() <= self.cap())
        &&& (self.spec_opts().raining && self.spawn_chance(dt) >= UNIT && self.spec_opts().r.0 > 0
            && self.spec_next_id() + self.spawn_limit(dt) <= u64::MAX && self.live().len()
            + self.spawn_limit(dt) <= self.cap() ==> rain.len() == self.spawn_limit(dt))
        &&& self.spec_next_id() + rain.len() <= u64::MAX
        &&& forall|k: int|
            0 <= k < rain.len() ==> self.rain_drop(
                #[trigger] rain[k],
                self.spec_next_id(),
                (self.spec_next_id() + rain.len()) as u64,
            ) && rain[k].id == self.spec_next_id() + k
    }

    /// The live drops after a tick are those of the pass: each live drop in
    /// sort order is advanced with its draws, merged, damped and kept if
    /// alive, after this tick's rain and with the fragments shed on the way.
    pub open spec fn drops_ticked(&self, post: RainDrops, frame: Frame, dt: int) -> bool {
        exists|rain: Seq<Drop>, draws: Seq<DropDraws>, order: Seq<Drop>|
            {
                &&& self.valid_rain(dt, rain)
                &&& draws.len() == self.live().len()
                &&& (forall|k: int| 0 <= k < draws.len() ==> (#[trigger] draws[k]).wf())
                &&& stable_sort_of(self.live(), order, self.sim_width())
                &&& post.live() == (#[trigger] self.pass_of(dt, rain, draws, order)).kept
                &&& post.spec_next_id() == self.pass_of(dt, rain, draws, order).next_id
                &&& frame.drops@ == self.pass_of(dt, rain, draws, order).sprites
                &&& frame.clears@ == self.pass_of(dt, rain, draws, order).clears
            }
    }

    /// `post` and `frame` are what a tick of length `dt` makes of `self`.
    pub open spec fn ticked(&self, post: RainDrops, frame: Frame, dt: int) -> bool {
        &&& post.wf()
        &&& post.spec_opts() == self.spec_opts()
        &&& post.spec_width() == self.spec_width()
        &&& post.spec_height() == self.spec_height()
        &&& post.spec_scale() == self.spec_scale()
        &&& (self.cleaning() > 0 ==> post.cleaning() == clamp_val(self.cleaning() - dt) && frame.fade == Some(
            (dt / 20) as i64,
        ))
        &&& (self.cleaning() <= 0 ==> post.cleaning() == self.cleaning() && frame.fade is None)
        &&& (!self.spec_opts().raining ==> post.counter() == self.counter() && frame.droplets.len() == 0)
        &&& (self.spec_opts().raining ==> frame.droplets.len() == self.owed_droplets(dt) / 1000
            && post.counter() == self.owed_droplets(dt) % 1000)
        &&& (forall|k: int| 0 <= k < frame.droplets.len() ==> self.droplet_sprite(#[trigger] frame.droplets@[k]))
        &&& self.drops_ticked(post, frame, dt)
        &&& (self.radii_bounded() && self.spec_opts().trails_shrink() ==> post.radii_bounded())
        &&& (self.live().len() <= self.cap() ==> post.live().len() <= self.cap())
        &&& (self.live().len() >= self.cap() ==> post.live().len() <= self.live().len())
        &&& self.spec_next_id() <= post.spec_next_id()
        &&& (forall|k: int|
            0 <= k < post.live().len() ==> {
                let d = #[trigger] post.live()[k];
                d.id >= self.spec_next_id() || (!d.is_new && descends_from(d, self.live()))
            })
        &&& (forall|k: int| 0 <= k < frame.drops.len() ==> (#[trigger] frame.drops@[k]).index < SPRITE_COUNT)
    }

    /// The pass of a tick of length `dt` over the live drops, given this
    /// tick's `rain` and one set of `draws` per live drop. The live drops are
    /// sorted; each one not killed is advanced, may shed a trail fragment
    /// while the live drops and this tick's spawns stay under the cap, and if
    /// still alive absorbs the smaller drops it collides with among the next
    /// ones in its collision window, is damped, kept and painted. The live
    /// set becomes the rain, the fragments and the survivors.
    #[verifier::rlimit(100)]
    #[verifier::spinoff_prover]
    pub fn step_drops(&mut self, dt: i64, rain: Vec<Drop>, draws: &Vec<DropDraws>) -> (res: (
        Vec<Patch>,
        Vec<Sprite>,
    ))
        requires
            old(self).wf(),
            0 <= dt <= LIMIT,
            draws.len() == old(self).live().len(),
            forall|k: int| 0 <= k < draws.len() ==> (#[trigger] draws@[k]).wf(),
            forall|k: int|
                0 <= k < rain.len() ==> old(self).rain_drop(#[trigger] rain@[k], 0, old(self).spec_next_id()),
            old(self).live().len() >= old(self).cap() ==> rain.len() == 0,
            old(self).live().len() < old(self).cap() ==> old(self).live().len() + rain.len() <= old(self).cap(),
        ensures
            final(self).wf(),
            final(self).setup() == old(self).setup(),
            final(self).cleaning() == old(self).cleaning(),
            final(self).counter() == old(self).counter(),
            exists|order: Seq<Drop>|
                {
                    let p = run(
                        old(self).tick_env(dt as int),
                        Pass {
                            live: order,
                            kept: rain@,
                            next_id: old(self).spec_next_id(),
                            added: rain.len() as int,
                            clears: Seq::empty(),
                            sprites: Seq::empty(),
                        },
                        draws@,
                        old(self).live().len(),
                    );
                    &&& #[trigger] stable_sort_of(old(self).live(), order, old(self).sim_width())
                    &&& final(self).live() == p.kept
                    &&& final(self).spec_next_id() == p.next_id
                    &&& res.0@ == p.clears
                    &&& res.1@ == p.sprites
                },
            (old(self).radii_bounded() && old(self).spec_opts().trails_shrink()) ==> final(self).radii_bounded(),
            old(self).live().len() <= old(self).cap() ==> final(self).live().len() <= old(self).cap(),
            old(self).live().len() >= old(self).cap() ==> final(self).live().len() <= old(self).live().len(),
            old(self).spec_next_id() <= final(self).spec_next_id(),
            forall|k: int|
                0 <= k < final(self).live().len() ==> {
                    let d = #[trigger] final(self).live()[k];
                    rain@.contains(d) || d.id >= old(self).spec_next_id() || (!d.is_new && descends_from(
                        d,
                        old(self).live(),
                    ))
                },
            forall|k: int| 0 <= k < res.1.len() ==> (#[trigger] res.1@[k]).index < SPRITE_COUNT,
    {
        let ghost bounded = old(self).radii_bounded() && old(self).spec_opts().trails_shrink();
        let n = self.drops.len();
        let am = self.area_multiplier();
        let cap = mul_div(self.opts.max_drops as i64, am, UNIT);
        let s = self.effective_scale_exec();
        let w_sim = mul_div(self.width, 1_000_000, s);
        let h_sim = mul_div(self.height, 1_000_000, s);
        let mut live = sort_drops(&self.drops, w_sim);
        let ghost order = live@;
        let ghost env = self.tick_env(dt as int);
        let max_r = self.opts.r.1;
        let mut added: usize = rain.len();
        let ghost rain0 = rain@;
        let mut fresh = rain;
        let mut next_id = self.next_id;
        let mut clears: Vec<Patch> = Vec::new();
        let mut sprites: Vec<Sprite> = Vec::new();
        let ghost first_id = self.next_id;
        let ghost st0 = Pass {
            live: order,
            kept: rain0,
            next_id: first_id,
            added: rain0.len() as int,
            clears: Seq::empty(),
            sprites: Seq::empty(),
        };
        proof {
            assert forall|k: int| 0 <= k < n implies ({
                let d = #[trigger] live@[k];
                &&& Self::live_drop(d, next_id)
                &&& (bounded ==> d.r <= max_r)
                &&& descends_from(d, old(self).live())
            }) by {
                assert(self.drops@.contains(live@[k]));
                let j = choose|j: int| 0 <= j < self.drops@.len() && self.drops@[j] == live@[k];
                assert(old(self).live()[j] == live@[k]);
            }
            assert(clears@ =~= Seq::<Patch>::empty());
            assert(sprites@ =~= Seq::<Sprite>::empty());
        }
        let mut i: usize = 0;
        while i < n
            invariant
                self == old(self),
                self.wf(),
                env == self.tick_env(dt as int),
                env.height == h_sim,
                env.cap == cap,
                env.base == n,
                max_r == self.spec_opts().r.1,
                bounded ==> self.spec_opts().trails_shrink(),
                0 <= dt <= LIMIT,
                in_range(h_sim as int),
                i <= n,
                live.len() == n,
                n == old(self).live().len(),
                draws.len() == n,
                forall|k: int| 0 <= k < draws.len() ==> (#[trigger] draws@[k]).wf(),
                first_id == old(self).spec_next_id(),
                first_id <= next_id,
                (Pass {
                    live: live@,
                    kept: fresh@,
                    next_id,
                    added: added as int,
                    clears: clears@,
                    sprites: sprites@,
                }) == run(env, st0, draws@, i as nat),
                forall|k: int| 0 <= k < n ==> {
                    let d = #[trigger] live@[k];
                    &&& d.wf()
                    &&& d.r > 0
                    &&& d.id < next_id
                    &&& (d.parent matches Some(p) ==> p < d.id)
                    &&& (bounded ==> d.r <= max_r)
                    &&& descends_from(d, old(self).live())
                },
                forall|k: int| 0 <= k < fresh.len() ==> {
                    let d = #[trigger] fresh@[k];
                    &&& Self::live_drop(d, next_id)
                    &&& (bounded ==> d.r <= max_r)
                    &&& (rain0.contains(d) || d.id >= first_id || (!d.is_new && descends_from(
                        d,
                        old(self).live(),
                    )))
                },
                added <= fresh.len(),
                fresh.len() <= i + added,
                n < cap ==> n + added <= cap,
                n >= cap ==> added == 0,
                forall|k: int| 0 <= k < sprites.len() ==> (#[trigger] sprites@[k]).index < SPRITE_COUNT,
            decreases n - i,
        {
            let ghost st = run(env, st0, draws@, i as nat);
            let d = live[i];
            if !d.killed {
                let w = draws[i];
                let spawn_ok = (n as i128 + added as i128) < cap as i128 && next_id < u64::MAX;
                let (mut cur, child) = advance(&self.opts, d, dt, h_sim, spawn_ok, &w, next_id);
                match child {
                    Some(c) => {
                        assert(c.id >= first_id);
                        fresh.push(c);
                        next_id = next_id + 1;
                        assert(added < fresh.len());
                        added = added + 1;
                    },
                    None => {},
                }
                let ghost st1 = Pass {
                    live: live@,
                    kept: fresh@,
                    next_id,
                    added: added as int,
                    clears: clears@,
                    sprites: sprites@,
                };
                if !cur.killed {
                    let moved = cur.momentum > 0;
                    let collision = moved || cur.is_new;
                    cur.is_new = false;
                    let ghost a1 = cur;
                    let ghost live_i = live@;
                    if collision {
                        let end: usize = if n - i >= COLLISION_WINDOW {
                            i + COLLISION_WINDOW
                        } else {
                            n
                        };
                        assert(end == window_end(i as int, n as int));
                        let mut j: usize = i + 1;
                        while j < end
                            invariant
                                self == old(self),
                                self.wf(),
                                max_r == self.spec_opts().r.1,
                                0 <= dt <= LIMIT,
                                i < n,
                                end <= n,
                                i + 1 <= j <= end,
                                live.len() == n,
                                (cur, live@) == scan(self.opts, dt as int, a1, live_i, i + 1, (j - (i + 1)) as nat),
                                cur.wf(),
                                !cur.killed,
                                !cur.is_new,
                                cur.r > 0,
                                cur.id == d.id,
                                cur.parent == d.parent,
                                bounded ==> cur.r <= max_r,
                                forall|k: int| 0 <= k < n ==> descends_from(#[trigger] live@[k], old(self).live()),
                                forall|k: int| 0 <= k < n ==> {
                                    let e = #[trigger] live@[k];
                                    &&& e.wf()
                                    &&& e.r > 0
                                    &&& e.id < next_id
                                    &&& (e.parent matches Some(p) ==> p < e.id)
                                    &&& (bounded ==> e.r <= max_r)
                                },
                            decreases end - j,
                        {
                            let mut other = live[j];
                            let ghost before = live@;
                            let ghost cur0 = cur;
                            if collide(&self.opts, &mut cur, &mut other, dt) {
                                live.set(j, other);
                                assert(descends_from(live@[j as int], old(self).live())) by {
                                    assert(descends_from(before[j as int], old(self).live()));
                                }
                            }
                            proof {
                                assert(live@ == if collides(self.opts, cur0, before[j as int], dt as int) {
                                    before.update(j as int, Drop { killed: true, ..before[j as int] })
                                } else {
                                    before
                                });
                            }
                            j = j + 1;
                        }
                    }
                    cur = damp(&self.opts, cur, dt);
                    proof {
                        assert(descends_from(d, old(self).live()));
                        let w0 = choose|w0: int|
                            0 <= w0 < old(self).live().len() && old(self).live()[w0].id == d.id
                                && old(self).live()[w0].parent == d.parent;
                        assert(old(self).live()[w0].id == cur.id && old(self).live()[w0].parent == cur.parent);
                        assert(descends_from(cur, old(self).live()));
                    }
                    fresh.push(cur);
                    if moved && self.opts.droplets_rate > 0 {
                        let reach = mul_div(cur.r, self.opts.droplets_cleaning_radius_multiplier, UNIT);
                        clears.push(patch_for(self.scale, cur.x, cur.y, reach));
                    }
                    sprites.push(sprite_for(&self.opts, self.scale, &cur));
                }
            }
            i = i + 1;
        }
        proof {
            assert(stable_sort_of(old(self).live(), order, old(self).sim_width()));
        }
        self.drops = fresh;
        self.next_id = next_id;
        (clears, sprites)
    }

    /// One tick of length `dt`: the ambient layer, new rain, then the pass
    /// over the live drops with one fresh set of draws per drop.
    pub fn update_drops(&mut self, dt: i64) -> (frame: Frame)
        requires
            old(self).wf(),
            0 <= dt <= LIMIT,
        ensures
            old(self).ticked(*final(self), frame, dt as int),
            final(self).spec_last_time() == old(self).spec_last_time(),
    {
        let ambient = self.update_droplets(dt);
        let ghost mid = *self;
        let rain = self.gen_drops(dt);
        let ghost rain_s = rain@;
        let ghost mid2 = *self;
        let n = self.drops.len();
        let mut draws: Vec<DropDraws> = Vec::new();
        while draws.len() < n
            invariant
                draws.len() <= n,
                forall|k: int| 0 <= k < draws.len() ==> (#[trigger] draws@[k]).wf(),
            decreases n - draws.len(),
        {
            draws.push(DropDraws::draw());
        }
        proof {
            assert(mid2.live() == old(self).live());
            assert forall|k: int| 0 <= k < rain_s.len() implies mid2.rain_drop(
                #[trigger] rain_s[k],
                0,
                mid2.spec_next_id(),
            ) by {
                assert(mid.rain_drop(rain_s[k], mid.spec_next_id(), mid2.spec_next_id()));
            }
        }
        let (clears, sprites) = self.step_drops(dt, rain, &draws);
        let frame = Frame { fade: ambient.0, droplets: ambient.1, clears, drops: sprites };
        proof {
            let order = choose|order: Seq<Drop>|
                {
                    let p = run(
                        mid2.tick_env(dt as int),
                        Pass {
                            live: order,
                            kept: rain_s,
                            next_id: mid2.spec_next_id(),
                            added: rain_s.len() as int,
                            clears: Seq::empty(),
                            sprites: Seq::empty(),
                        },
                        draws@,
                        mid2.live().len(),
                    );
                    &&& #[trigger] stable_sort_of(mid2.live(), order, mid2.sim_width())
                    &&& self.live() == p.kept
                    &&& self.spec_next_id() == p.next_id
                    &&& clears@ == p.clears
                    &&& sprites@ == p.sprites
                };
            assert(mid2.tick_env(dt as int) == old(self).tick_env(dt as int));
            assert(old(self).valid_rain(dt as int, rain_s)) by {
                assert forall|k: int| 0 <= k < rain_s.len() implies old(self).rain_drop(
                    #[trigger] rain_s[k],
                    old(self).spec_next_id(),
                    (old(self).spec_next_id() + rain_s.len()) as u64,
                ) && rain_s[k].id == old(self).spec_next_id() + k by {
                    assert(mid.rain_drop(rain_s[k], mid.spec_next_id(), mid2.spec_next_id()));
                }
            }
            assert(self.live() == old(self).pass_of(dt as int, rain_s, draws@, order).kept);
            assert(old(self).drops_ticked(*self, frame, dt as int));
            assert forall|k: int| 0 <= k < self.live().len() implies ({
                let d = #[trigger] self.live()[k];
                d.id >= old(self).spec_next_id() || (!d.is_new && descends_from(d, old(self).live()))
            }) by {
                let d = self.live()[k];
                if rain_s.contains(d) {
                    let j = choose|j: int| 0 <= j < rain_s.len() && rain_s[j] == d;
                    assert(mid.rain_drop(rain_s[j], mid.spec_next_id(), mid2.spec_next_id()));
                }
            }
        }
        frame
    }

    /// One tick at wall-clock time `now` (thousandths of a millisecond): the
    /// tick length is the time since the last tick, capped at 1.1 frames and
    /// scaled by the time multiplier.
    pub fn draw(&mut self, now: i64) -> (frame: Frame)
        requires
            old(self).wf(),
        ensures
            final(self).spec_last_time() == now,
            old(self).ticked(
                *final(self),
                frame,
                tick_length(
                    clamp_val(now - old(self).spec_last_time()),
                    old(self).spec_opts().time_scale_multiplier as int,
                ),
            ),
    {
        let delta = clamp_wide(now as i128 - self.last_time as i128);
        let dt = time_scale(delta, self.opts.time_scale_multiplier);
        let frame = self.update_drops(dt);
        let ghost mid = *self;
        self.last_time = now;
        proof {
            assert(self.live() == mid.live());
            let (rain, draws, order) = choose|rain: Seq<Drop>, draws: Seq<DropDraws>, order: Seq<Drop>|
                {
                    &&& old(self).valid_rain(dt as int, rain)
                    &&& draws.len() == old(self).live().len()
                    &&& (forall|k: int| 0 <= k < draws.len() ==> (#[trigger] draws[k]).wf())
                    &&& stable_sort_of(old(self).live(), order, old(self).sim_width())
                    &&& mid.live() == (#[trigger] old(self).pass_of(dt as int, rain, draws, order)).kept
                    &&& mid.spec_next_id() == old(self).pass_of(dt as int, rain, draws, order).next_id
                    &&& frame.drops@ == old(self).pass_of(dt as int, rain, draws, order).sprites
                    &&& frame.clears@ == old(self).pass_of(dt as int, rain, draws, order).clears
                };
            assert(self.live() == old(self).pass_of(dt as int, rain, draws, order).kept);
            assert(old(self).drops_ticked(*self, frame, dt as int));
            assert forall|k: int| 0 <= k < self.live().len() implies Self::live_drop(
                #[trigger] self.live()[k],
                self.spec_next_id(),
            ) by {
                assert(Self::live_drop(mid.live()[k], mid.spec_next_id()));
            }
        }
        frame
    }
}

} // verus!

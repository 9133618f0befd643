//! Configuration of the droplet simulation.
use vstd::prelude::*;
use crate::fixed::{in_range, LIMIT, UNIT};

verus! {

/// Simulation options, in thousandths of their unit unless said otherwise
/// (`max_drops` is a count).
#[derive(Clone, Copy, Debug)]
pub struct RainDropsOptions {
    /// Multiplier applied to each tick's time step.
    pub time_scale_multiplier: i64,
    pub raining: bool,
    /// Ambient droplets per tick over a 1024x768 area.
    pub droplets_rate: i64,
    /// Radius bounds of falling drops: `(min, max)`.
    pub r: (i64, i64),
    pub max_drops: i32,
    /// Radius bounds of ambient droplets: `(min, max)`.
    pub droplets_size: (i64, i64),
    pub droplets_cleaning_radius_multiplier: i64,
    pub drop_fall_multiplier: i64,
    /// Cap on the drops that one tick spawns (per unit of time and area).
    pub rain_limit: i64,
    /// Chance that another drop spawns (per unit of time and area).
    pub rain_chance: i64,
    /// Vertical band where drops spawn, as fractions of the height.
    pub spawn_area: [i64; 2],
    pub auto_shrink: bool,
    pub trail_rate: i64,
    /// Radius of a trail fragment relative to its parent: `[min, max]`.
    pub trail_scale_range: [i64; 2],
    pub global_time_scale: i64,
    pub collision_radius: i64,
    /// Widening of the collision radius per unit of speed and time, in
    /// millionths.
    pub collision_radius_increase: i64,
    pub collision_boost_multiplier: i64,
    pub collision_boost: i64,
}

impl RainDropsOptions {
    pub open spec fn min_r(&self) -> int {
        self.r.0 as int
    }

    pub open spec fn max_r(&self) -> int {
        self.r.1 as int
    }

    /// Every value is within the fixed-point range, `0 <= min_r < max_r`,
    /// and rates are not negative.
    pub open spec fn wf(&self) -> bool {
        &&& in_range(self.time_scale_multiplier as int)
        &&& in_range(self.droplets_rate as int)
        &&& in_range(self.r.0 as int)
        &&& in_range(self.r.1 as int)
        &&& in_range(self.droplets_size.0 as int)
        &&& in_range(self.droplets_size.1 as int)
        &&& in_range(self.droplets_cleaning_radius_multiplier as int)
        &&& in_range(self.drop_fall_multiplier as int)
        &&& in_range(self.rain_limit as int)
        &&& in_range(self.rain_chance as int)
        &&& in_range(self.spawn_area[0] as int)
        &&& in_range(self.spawn_area[1] as int)
        &&& in_range(self.trail_rate as int)
        &&& in_range(self.trail_scale_range[0] as int)
        &&& in_range(self.trail_scale_range[1] as int)
        &&& in_range(self.global_time_scale as int)
        &&& in_range(self.collision_radius as int)
        &&& in_range(self.collision_radius_increase as int)
        &&& in_range(self.collision_boost_multiplier as int)
        &&& in_range(self.collision_boost as int)
        &&& 0 <= self.r.0 < self.r.1
        &&& self.time_scale_multiplier >= 0
        &&& self.droplets_rate >= 0
        &&& self.rain_limit >= 0
        &&& self.rain_chance >= 0
        &&& self.trail_rate >= 0
        &&& self.global_time_scale >= 0
        &&& self.max_drops >= 0
    }

    /// Trail fragments are never larger than their parent.
    pub open spec fn trails_shrink(&self) -> bool {
        self.trail_scale_range[0] <= UNIT && self.trail_scale_range[1] <= UNIT
    }

    pub open spec fn defaults() -> RainDropsOptions {
        RainDropsOptions {
            time_scale_multiplier: 1000,
            raining: true,
            droplets_rate: 50000,
            r: (10000, 40000),
            max_drops: 900,
            droplets_size: (2000, 4000),
            droplets_cleaning_radius_multiplier: 430,
            drop_fall_multiplier: 1000,
            rain_limit: 3000,
            rain_chance: 300,
            spawn_area: [-100i64, 950i64],
            auto_shrink: true,
            trail_rate: 1000,
            trail_scale_range: [200i64, 500i64],
            global_time_scale: 1000,
            collision_radius: 650,
            collision_radius_increase: 10000,
            collision_boost_multiplier: 50,
            collision_boost: 1000,
        }
    }

    /// Whether the options are well formed.
    pub fn is_valid(&self) -> (ok: bool)
        ensures
            ok == self.wf(),
    {
        let limit: i64 = LIMIT;
        let within = |v: i64| -> (b: bool)
            ensures
                b == in_range(v as int),
            { -limit <= v && v <= limit };
        within(self.time_scale_multiplier) && within(self.droplets_rate) && within(self.r.0)
            && within(self.r.1) && within(self.droplets_size.0) && within(self.droplets_size.1)
            && within(self.droplets_cleaning_radius_multiplier) && within(self.drop_fall_multiplier)
            && within(self.rain_limit) && within(self.rain_chance) && within(self.spawn_area[0])
            && within(self.spawn_area[1]) && within(self.trail_rate) && within(
            self.trail_scale_range[0],
        ) && within(self.trail_scale_range[1]) && within(self.global_time_scale) && within(
            self.collision_radius,
        ) && within(self.collision_radius_increase) && within(self.collision_boost_multiplier)
            && within(self.collision_boost) && 0 <= self.r.0 && self.r.0 < self.r.1
            && self.time_scale_multiplier >= 0 && self.droplets_rate >= 0 && self.rain_limit >= 0
            && self.rain_chance >= 0 && self.trail_rate >= 0 && self.global_time_scale >= 0
            && self.max_drops >= 0
    }

    pub fn new() -> (o: RainDropsOptions)
        ensures
            o == RainDropsOptions::defaults(),
            o.wf(),
    {
        RainDropsOptions {
            time_scale_multiplier: 1000,
            raining: true,
            droplets_rate: 50000,
            r: (10000, 40000),
            max_drops: 900,
            droplets_size: (2000, 4000),
            droplets_cleaning_radius_multiplier: 430,
            drop_fall_multiplier: 1000,
            rain_limit: 3000,
            rain_chance: 300,
            spawn_area: [-100, 950],
            auto_shrink: true,
            trail_rate: 1000,
            trail_scale_range: [200, 500],
            global_time_scale: 1000,
            collision_radius: 650,
            collision_radius_increase: 10000,
            collision_boost_multiplier: 50,
            collision_boost: 1000,
        }
    }
}

impl Default for RainDropsOptions {
    fn default() -> (o: RainDropsOptions)
        ensures
            o == RainDropsOptions::defaults(),
    {
        RainDropsOptions::new()
    }
}

} // verus!

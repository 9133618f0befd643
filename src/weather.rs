//! Weather profiles: each kind of weather with its simulation overrides.
use vstd::prelude::*;
use vstd::string::StringSliceAdditionalSpecFns;
use crate::fixed::in_range;
use crate::images::{same_text, WeatherImage};

verus! {

/// Options of one weather profile, in thousandths of their unit
/// (`collision_radius_increase` in millionths).
#[derive(Clone, Copy, Debug)]
pub struct WeatherOptions {
    pub raining: bool,
    pub min_r: i64,
    pub max_r: i64,
    pub rain_limit: i64,
    pub rain_chance: i64,
    pub droplets_rate: i64,
    pub droplets_size: [i64; 2],
    pub trail_rate: i64,
    pub trail_scale_range: [i64; 2],
    pub flash_chance: i64,
    pub collision_radius_increase: i64,
}

impl WeatherOptions {
    /// Every value is within the fixed-point range, `0 <= min_r < max_r`,
    /// and rates are not negative.
    pub open spec fn wf(&self) -> bool {
        &&& in_range(self.min_r as int)
        &&& in_range(self.max_r as int)
        &&& in_range(self.rain_limit as int)
        &&& in_range(self.rain_chance as int)
        &&& in_range(self.droplets_rate as int)
        &&& in_range(self.droplets_size[0] as int)
        &&& in_range(self.droplets_size[1] as int)
        &&& in_range(self.trail_rate as int)
        &&& in_range(self.trail_scale_range[0] as int)
        &&& in_range(self.trail_scale_range[1] as int)
        &&& in_range(self.flash_chance as int)
        &&& in_range(self.collision_radius_increase as int)
        &&& 0 <= self.min_r < self.max_r
        &&& self.rain_limit >= 0
        &&& self.rain_chance >= 0
        &&& self.droplets_rate >= 0
        &&& self.trail_rate >= 0
    }

    pub open spec fn defaults() -> WeatherOptions {
        WeatherOptions {
            raining: true,
            min_r: 20000,
            max_r: 50000,
            rain_limit: 6000,
            rain_chance: 350,
            droplets_rate: 50000,
            droplets_size: [3000i64, 5500i64],
            trail_rate: 1000,
            trail_scale_range: [250i64, 350i64],
            flash_chance: 0,
            collision_radius_increase: 200,
        }
    }

    pub fn new() -> (o: WeatherOptions)
        ensures
            o == WeatherOptions::defaults(),
            o.wf(),
    {
        WeatherOptions {
            raining: true,
            min_r: 20000,
            max_r: 50000,
            rain_limit: 6000,
            rain_chance: 350,
            droplets_rate: 50000,
            droplets_size: [3000, 5500],
            trail_rate: 1000,
            trail_scale_range: [250, 350],
            flash_chance: 0,
            collision_radius_increase: 200,
        }
    }
}

impl Default for WeatherOptions {
    fn default() -> (o: WeatherOptions)
        ensures
            o == WeatherOptions::defaults(),
    {
        WeatherOptions::new()
    }
}

/// A weather profile.
#[derive(Clone, Copy, Debug)]
pub enum Weather {
    Rain(WeatherOptions),
    Fallout(WeatherOptions),
    Storm(WeatherOptions),
    Sun(WeatherOptions),
    Drizzle(WeatherOptions),
}

/// The profile that a weather kind selects: the default options with that
/// kind's overrides.
pub open spec fn profile<I>(img: WeatherImage<I>) -> Weather {
    match img {
        WeatherImage::Rain(_) => Weather::Rain(WeatherOptions {
            raining: true,
            min_r: 20000,
            max_r: 50000,
            rain_limit: 6000,
            rain_chance: 350,
            droplets_rate: 50000,
            droplets_size: [3000i64, 5500i64],
            trail_rate: 1000,
            trail_scale_range: [250i64, 350i64],
            flash_chance: 0,
            collision_radius_increase: 200,
        }),
        WeatherImage::Fallout(_) => Weather::Fallout(WeatherOptions {
            raining: true,
            min_r: 30000,
            max_r: 60000,
            rain_limit: 6000,
            rain_chance: 350,
            droplets_rate: 20000,
            droplets_size: [3000i64, 5500i64],
            trail_rate: 4000,
            trail_scale_range: [250i64, 350i64],
            flash_chance: 0,
            collision_radius_increase: 0,
        }),
        WeatherImage::Storm(_) => Weather::Storm(WeatherOptions {
            raining: true,
            min_r: 20000,
            max_r: 55000,
            rain_limit: 6000,
            rain_chance: 400,
            droplets_rate: 80000,
            droplets_size: [3000i64, 5500i64],
            trail_rate: 2500,
            trail_scale_range: [250i64, 400i64],
            flash_chance: 100,
            collision_radius_increase: 200,
        }),
        WeatherImage::Sun(_) => Weather::Sun(WeatherOptions {
            raining: false,
            min_r: 20000,
            max_r: 50000,
            rain_limit: 0,
            rain_chance: 0,
            droplets_rate: 0,
            droplets_size: [3000i64, 5500i64],
            trail_rate: 1000,
            trail_scale_range: [250i64, 350i64],
            flash_chance: 0,
            collision_radius_increase: 200,
        }),
        WeatherImage::Drizzle(_) => Weather::Drizzle(WeatherOptions {
            raining: true,
            min_r: 10000,
            max_r: 40000,
            rain_limit: 2000,
            rain_chance: 150,
            droplets_rate: 10000,
            droplets_size: [3500i64, 6000i64],
            trail_rate: 1000,
            trail_scale_range: [250i64, 350i64],
            flash_chance: 0,
            collision_radius_increase: 200,
        }),
    }
}

impl Weather {
    pub open spec fn spec_options(&self) -> WeatherOptions {
        match *self {
            Weather::Rain(o) => o,
            Weather::Fallout(o) => o,
            Weather::Storm(o) => o,
            Weather::Sun(o) => o,
            Weather::Drizzle(o) => o,
        }
    }

    /// The profile that a name selects, with the given options:
    /// `"fallout"`, `"storm"`, `"sun"` and `"drizzle"` select their own
    /// profile; any other name selects rain.
    pub fn new(name: &str, opts: WeatherOptions) -> (w: Weather)
        ensures
            w.spec_options() == opts,
            name.spec_bytes() == "fallout".spec_bytes() ==> w is Fallout,
            name.spec_bytes() != "fallout".spec_bytes() && name.spec_bytes() == "storm".spec_bytes() ==> w is Storm,
            name.spec_bytes() != "fallout".spec_bytes() && name.spec_bytes() != "storm".spec_bytes()
                && name.spec_bytes() == "sun".spec_bytes() ==> w is Sun,
            name.spec_bytes() != "fallout".spec_bytes() && name.spec_bytes() != "storm".spec_bytes()
                && name.spec_bytes() != "sun".spec_bytes() && name.spec_bytes() == "drizzle".spec_bytes()
                ==> w is Drizzle,
            name.spec_bytes() != "fallout".spec_bytes() && name.spec_bytes() != "storm".spec_bytes()
                && name.spec_bytes() != "sun".spec_bytes() && name.spec_bytes() != "drizzle".spec_bytes()
                ==> w is Rain,
    {
        if same_text(name, "fallout") {
            Weather::Fallout(opts)
        } else if same_text(name, "storm") {
            Weather::Storm(opts)
        } else if same_text(name, "sun") {
            Weather::Sun(opts)
        } else if same_text(name, "drizzle") {
            Weather::Drizzle(opts)
        } else {
            Weather::Rain(opts)
        }
    }

    /// The profile of a weather kind.
    pub fn new_with_img<I>(img: &WeatherImage<I>) -> (w: Weather)
        ensures
            w == profile(*img),
            w.spec_options().wf(),
    {
        match img {
            WeatherImage::Rain(_) => Weather::Rain(WeatherOptions {
                raining: true,
                min_r: 20000,
                max_r: 50000,
                rain_limit: 6000,
                rain_chance: 350,
                droplets_rate: 50000,
                droplets_size: [3000, 5500],
                trail_rate: 1000,
                trail_scale_range: [250, 350],
                flash_chance: 0,
                collision_radius_increase: 200,
            }),
            WeatherImage::Fallout(_) => Weather::Fallout(WeatherOptions {
                raining: true,
                min_r: 30000,
                max_r: 60000,
                rain_limit: 6000,
                rain_chance: 350,
                droplets_rate: 20000,
                droplets_size: [3000, 5500],
                trail_rate: 4000,
                trail_scale_range: [250, 350],
                flash_chance: 0,
                collision_radius_increase: 0,
            }),
            WeatherImage::Storm(_) => Weather::Storm(WeatherOptions {
                raining: true,
                min_r: 20000,
                max_r: 55000,
                rain_limit: 6000,
                rain_chance: 400,
                droplets_rate: 80000,
                droplets_size: [3000, 5500],
                trail_rate: 2500,
                trail_scale_range: [250, 400],
                flash_chance: 100,
                collision_radius_increase: 200,
            }),
            WeatherImage::Sun(_) => Weather::Sun(WeatherOptions {
                raining: false,
                min_r: 20000,
                max_r: 50000,
                rain_limit: 0,
                rain_chance: 0,
                droplets_rate: 0,
                droplets_size: [3000, 5500],
                trail_rate: 1000,
                trail_scale_range: [250, 350],
                flash_chance: 0,
                collision_radius_increase: 200,
            }),
            WeatherImage::Drizzle(_) => Weather::Drizzle(WeatherOptions {
                raining: true,
                min_r: 10000,
                max_r: 40000,
                rain_limit: 2000,
                rain_chance: 150,
                droplets_rate: 10000,
                droplets_size: [3500, 6000],
                trail_rate: 1000,
                trail_scale_range: [250, 350],
                flash_chance: 0,
                collision_radius_increase: 200,
            }),
        }
    }

    pub fn options(&self) -> (o: &WeatherOptions)
        ensures
            *o == self.spec_options(),
    {
        match self {
            Weather::Rain(o) => o,
            Weather::Fallout(o) => o,
            Weather::Storm(o) => o,
            Weather::Sun(o) => o,
            Weather::Drizzle(o) => o,
        }
    }

    /// The profile's name.
    pub fn name(&self) -> (r: &'static str)
        ensures
            self is Rain ==> r == "rain",
            self is Fallout ==> r == "fallout",
            self is Storm ==> r == "storm",
            self is Sun ==> r == "sun",
            self is Drizzle ==> r == "drizzle",
    {
        match self {
            Weather::Rain(_) => "rain",
            Weather::Fallout(_) => "fallout",
            Weather::Storm(_) => "storm",
            Weather::Sun(_) => "sun",
            Weather::Drizzle(_) => "drizzle",
        }
    }
}

} // verus!

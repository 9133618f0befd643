use raindrops::fixed::{decay, sqrt_floor};
use raindrops::physics::{accumulate_trail, advance, collide, damp, shrink_step};
use raindrops::random::uniform_below;
use raindrops::rain_drops::{sort_drops, time_scale, CLEANING_TICKS};
use raindrops::random::DropDraws;
use raindrops::render::{patch_for, sprite_for};
use raindrops::{Drop, RainDrops, RainDropsOptions, Weather, WeatherImage, WeatherOptions, WebGlOptions};

fn quiet_draws() -> DropDraws {
    DropDraws { flicker: 999, gain: 0, shrink: 999, jitter: 500, trail_scale: 0, spawn: 0 }
}

fn reference_engine(opts: RainDropsOptions) -> RainDrops {
    RainDrops::new(1024, 768, 1000, Some(opts), 0)
}

#[test]
fn forced_spawn_makes_exactly_the_limit() {
    let mut opts = RainDropsOptions::new();
    opts.rain_chance = 1000;
    opts.rain_limit = 5000;
    let mut engine = reference_engine(opts);
    assert_eq!(engine.area_multiplier(), 1000);
    let drops = engine.gen_drops(1000);
    assert_eq!(drops.len(), 5);
    for d in &drops {
        assert!(d.r >= 10000 && d.r <= 40000);
        assert_eq!(d.spread_x, 1500);
        assert_eq!(d.spread_y, 1500);
        assert!(d.parent.is_none());
        assert!(d.momentum >= 1000);
    }
}

#[test]
fn no_rain_spawns_nothing() {
    let mut opts = RainDropsOptions::new();
    opts.raining = false;
    opts.rain_chance = 1000;
    let mut engine = reference_engine(opts);
    assert!(engine.gen_drops(1000).is_empty());
}

#[test]
fn idle_ambient_fade_stops_at_zero() {
    let mut opts = RainDropsOptions::new();
    opts.raining = false;
    let mut engine = reference_engine(opts);
    engine.clear_texture();
    assert_eq!(engine.cleaning_iterations(), CLEANING_TICKS);
    let (fade, droplets) = engine.update_droplets(CLEANING_TICKS);
    assert_eq!(fade, Some(2500));
    assert!(droplets.is_empty());
    assert_eq!(engine.cleaning_iterations(), 0);
    let (fade, _) = engine.update_droplets(1000);
    assert_eq!(fade, None);
}

#[test]
fn ambient_droplets_follow_the_rate() {
    let mut opts = RainDropsOptions::new();
    opts.droplets_rate = 2500;
    let mut engine = reference_engine(opts);
    let (_, first) = engine.update_droplets(1000);
    assert_eq!(first.len(), 2);
    let (_, second) = engine.update_droplets(1000);
    assert_eq!(second.len(), 3);
}

#[test]
fn trail_spawn_resets_the_accumulator() {
    let opts = RainDropsOptions::new();
    let mut d = Drop::at(100_000, 100_000, 20000);
    d.momentum = 10000;
    d.next_spawn = 5000;
    d.id = 3;
    let acc = accumulate_trail(d, 1000, opts.trail_rate);
    assert_eq!(acc.last_spawn, 10000);
    let (parent, child) = advance(&opts, d, 1000, 768_000, true, &quiet_draws(), 4);
    let child = child.expect("one trail fragment");
    assert_eq!(parent.last_spawn, 0);
    assert_eq!(child.parent, Some(3));
    assert_eq!(child.id, 4);
    assert_eq!(child.r, 4000);
    assert_eq!(child.y, 100_000 - 200);
    assert_eq!(child.spread_y, 1000);
    assert_eq!(parent.r, 19400);
}

#[test]
fn no_trail_without_room() {
    let opts = RainDropsOptions::new();
    let mut d = Drop::at(100_000, 100_000, 20000);
    d.momentum = 10000;
    d.next_spawn = 5000;
    let (parent, child) = advance(&opts, d, 1000, 768_000, false, &quiet_draws(), 4);
    assert!(child.is_none());
    assert_eq!(parent.last_spawn, 10000);
}

#[test]
fn time_step_is_capped() {
    assert_eq!(time_scale(5_000_000, 1000), 1100);
    assert_eq!(time_scale(5_000_000, 2000), 2200);
    assert_eq!(time_scale(16_667, 1000), 1000);
    assert_eq!(time_scale(-5000, 1000), 0);
}

#[test]
fn merge_grows_and_kills_the_smaller() {
    let opts = RainDropsOptions::new();
    let mut a = Drop::at(0, 0, 30000);
    a.momentum = 5000;
    a.id = 1;
    let mut b = Drop::at(1000, 0, 10000);
    b.momentum = 2000;
    b.id = 2;
    b.parent = Some(0);
    assert!(collide(&opts, &mut a, &mut b, 1000));
    assert_eq!(a.r, 31304);
    assert_eq!(a.momentum, 7565);
    assert_eq!(a.momentum_x, 100);
    assert_eq!(a.spread_x, 0);
    assert!(b.killed);
}

#[test]
fn merge_is_capped_at_max_radius() {
    let opts = RainDropsOptions::new();
    let mut a = Drop::at(0, 0, 39000);
    let mut b = Drop::at(0, 1000, 30000);
    b.parent = Some(9);
    assert!(collide(&opts, &mut a, &mut b, 1000));
    assert_eq!(a.r, 40000);
}

#[test]
fn siblings_never_merge() {
    let opts = RainDropsOptions::new();
    let mut a = Drop::at(0, 0, 30000);
    let mut b = Drop::at(10, 0, 10000);
    assert!(!collide(&opts, &mut a, &mut b, 1000));
    a.parent = Some(5);
    b.parent = Some(5);
    assert!(!collide(&opts, &mut a, &mut b, 1000));
    assert!(!b.killed);
    assert_eq!(a.r, 30000);
}

#[test]
fn far_drops_do_not_merge() {
    let opts = RainDropsOptions::new();
    let mut a = Drop::at(0, 0, 30000);
    let mut b = Drop::at(1_000_000, 0, 10000);
    b.parent = Some(1);
    assert!(!collide(&opts, &mut a, &mut b, 1000));
}

#[test]
fn shrinking_to_nothing_kills() {
    let mut d = Drop::at(0, 0, 5);
    d.shrink = 10;
    let s = shrink_step(d, 1000);
    assert_eq!(s.r, -5);
    assert!(s.killed);
}

#[test]
fn falling_off_the_bottom_kills() {
    let opts = RainDropsOptions::new();
    let mut d = Drop::at(0, 760_000, 20000);
    d.momentum = 30000;
    d.next_spawn = 1_000_000;
    let (after, _) = advance(&opts, d, 1000, 768_000, false, &quiet_draws(), 0);
    assert!(after.killed);
    let mut e = Drop::at(0, 100_000, 20000);
    e.momentum = 3000;
    e.next_spawn = 1_000_000;
    let (after, _) = advance(&opts, e, 1000, 768_000, false, &quiet_draws(), 0);
    assert!(!after.killed);
    assert_eq!(after.y, 103_000);
}

#[test]
fn damping_slows_down() {
    let opts = RainDropsOptions::new();
    let mut d = Drop::at(0, 0, 20000);
    d.momentum = 10000;
    d.momentum_x = 1000;
    let out = damp(&opts, d, 1000);
    assert_eq!(out.momentum, 9900);
    assert_eq!(out.momentum_x, 700);
    d.momentum = 50;
    assert_eq!(damp(&opts, d, 1000).momentum, 0);
}

#[test]
fn integer_square_root() {
    assert_eq!(sqrt_floor(0), 0);
    assert_eq!(sqrt_floor(15), 3);
    assert_eq!(sqrt_floor(16), 4);
    assert_eq!(sqrt_floor(1_000_000), 1000);
}

#[test]
fn decay_factors() {
    assert_eq!(decay(970, 1000), 970);
    assert_eq!(decay(400, 500), 632);
    assert_eq!(decay(970, 1500), 954);
    assert_eq!(decay(700, 2000), 490);
    assert_eq!(decay(700, 0), 1000);
}

#[test]
fn sort_orders_top_to_bottom() {
    let v = vec![Drop::at(5000, 2000, 1), Drop::at(1000, 1000, 2), Drop::at(0, 2000, 3)];
    let out = sort_drops(&v, 10_000);
    let rs: Vec<i64> = out.iter().map(|d| d.r).collect();
    assert_eq!(rs, vec![2, 3, 1]);
}

#[test]
fn sprite_index_and_rect() {
    let opts = RainDropsOptions::new();
    let d = Drop::at(100_000, 100_000, 40000);
    let s = sprite_for(&opts, 1000, &d);
    assert_eq!(s.index, 229);
    assert_eq!(s.x, 60_000);
    assert_eq!(s.y, 40_000);
    assert_eq!(s.w, 80_000);
    assert_eq!(s.h, 120_000);
    let small = sprite_for(&opts, 1000, &Drop::at(0, 0, 5000));
    assert_eq!(small.index, 0);
    let p = patch_for(2000, 10_000, 10_000, 1000);
    assert_eq!((p.x, p.y, p.w, p.h), (18_000, 18_000, 4_000, 6_000));
}

#[test]
fn area_multiplier_scales_with_surface() {
    let engine = RainDrops::new(2048, 1536, 1000, None, 0);
    assert_eq!(engine.area_multiplier(), 2000);
    let engine = RainDrops::new(2048, 1536, 0, None, 0);
    assert_eq!(engine.area(), 3_145_728);
}

#[test]
fn ticks_keep_radii_in_bounds() {
    let mut engine = RainDrops::new(1024, 768, 1000, None, 0);
    let mut now: i64 = 0;
    for _ in 0..300 {
        now += 16_667;
        let frame = engine.draw(now);
        for s in &frame.drops {
            assert!(s.index < 256);
        }
        for d in engine.drops() {
            assert!(d.r > 0 && d.r <= 40000);
            assert!(!d.killed);
            if let Some(p) = d.parent {
                assert!(p < d.id);
            }
        }
    }
}

#[test]
fn full_engine_does_not_grow() {
    let mut opts = RainDropsOptions::new();
    opts.max_drops = 3;
    opts.rain_chance = 1000;
    opts.rain_limit = 10_000;
    let mut engine = reference_engine(opts);
    let mut now: i64 = 0;
    now += 16_667;
    engine.draw(now);
    assert_eq!(engine.drops().len(), 3);
    for _ in 0..100 {
        now += 16_667;
        engine.draw(now);
        assert!(engine.drops().len() <= 3);
    }
}

#[test]
fn weather_profiles() {
    let storm = Weather::new_with_img(&WeatherImage::new("storm", ()));
    assert_eq!(storm.name(), "storm");
    assert_eq!(storm.options().max_r, 55000);
    assert_eq!(storm.options().flash_chance, 100);
    let sun = Weather::new_with_img(&WeatherImage::new("sun", ()));
    assert!(!sun.options().raining);
    assert_eq!(sun.options().rain_limit, 0);
    let other = Weather::new("hail", WeatherOptions::new());
    assert_eq!(other.name(), "rain");
    assert_eq!(WeatherImage::new("drizzle", 7).name(), "drizzle");
    assert_eq!(*WeatherImage::new("drizzle", 7).image(), 7);
}

#[test]
fn weather_switch_updates_options() {
    let mut engine = RainDrops::new(1024, 768, 1000, None, 0);
    let fallout = Weather::new_with_img(&WeatherImage::new("fallout", ()));
    engine.set_options(fallout.options());
    assert_eq!(engine.opts().r, (30000, 60000));
    assert_eq!(engine.opts().trail_rate, 4000);
    assert_eq!(engine.opts().collision_radius_increase, 0);
    assert_eq!(engine.opts().collision_radius, 650);
}

#[test]
fn default_options() {
    let o = RainDropsOptions::default();
    assert_eq!(o.r, (10000, 40000));
    assert_eq!(o.rain_chance, 300);
    assert_eq!(o.rain_limit, 3000);
    assert_eq!(o.max_drops, 900);
    assert_eq!(o.collision_radius, 650);
    assert!(!WebGlOptions::new().alpha);
    assert!(!WebGlOptions::default().alpha);
    let d = Drop::default();
    assert!(d.is_new && !d.killed && d.parent.is_none());
}

#[test]
fn sort_keeps_equal_keys_in_order() {
    let v = vec![Drop::at(1000, 0, 1), Drop::at(0, 100, 2), Drop::at(1000, 0, 3)];
    let out = sort_drops(&v, 10_000);
    let rs: Vec<i64> = out.iter().map(|d| d.r).collect();
    assert_eq!(rs, vec![1, 2, 3]);
    assert!(sort_drops(&Vec::new(), 10_000).is_empty());
}

#[test]
fn random_draws_stay_in_range() {
    for _ in 0..200 {
        let u = raindrops::random::uniform_below(5);
        assert!((0..5).contains(&u));
        let f = raindrops::random::unit_draw();
        assert!((0..1000).contains(&f));
    }
    assert_eq!(raindrops::random::uniform_below(0), 0);
    assert_eq!(raindrops::random::uniform_below(1), 0);
}

#[test]
fn own_fragment_is_never_absorbed() {
    let opts = RainDropsOptions::new();
    let mut a = Drop::at(0, 0, 30000);
    a.id = 4;
    let mut b = Drop::at(10, 0, 10000);
    b.parent = Some(4);
    assert!(!collide(&opts, &mut a, &mut b, 1000));
    assert!(!b.killed);
    let mut c = Drop::at(0, 0, 30000);
    c.parent = Some(9);
    let mut e = Drop::at(10, 0, 10000);
    e.id = 9;
    assert!(!collide(&opts, &mut c, &mut e, 1000));
}

#[test]
fn tick_keeps_shed_fragment() {
    let mut opts = RainDropsOptions::new();
    opts.rain_chance = 1000;
    opts.rain_limit = 1000;
    let mut engine = reference_engine(opts);
    let rain = engine.gen_drops(1000);
    assert_eq!(rain.len(), 1);
    let mut d = rain[0];
    d.x = 100_000;
    d.y = 100_000;
    d.r = 20000;
    d.momentum = 10000;
    d.last_spawn = 0;
    d.next_spawn = 5000;
    let (_, sprites) = engine.step_drops(1000, vec![d], &Vec::new());
    assert!(sprites.is_empty());
    assert_eq!(engine.drops().len(), 1);
    let (_, sprites) = engine.step_drops(1000, Vec::new(), &vec![quiet_draws()]);
    assert_eq!(sprites.len(), 1);
    let live = engine.drops();
    assert_eq!(live.len(), 2);
    let child = live.iter().find(|c| c.parent == Some(d.id)).expect("fragment kept");
    assert_eq!(child.r, 4000);
    let parent = live.iter().find(|c| c.id == d.id).expect("parent kept");
    assert_eq!(parent.last_spawn, 0);
    assert!(!parent.is_new);
}

#[test]
fn tick_drops_what_falls_off() {
    let mut opts = RainDropsOptions::new();
    opts.rain_chance = 1000;
    opts.rain_limit = 1000;
    opts.raining = true;
    let mut engine = reference_engine(opts);
    let rain = engine.gen_drops(1000);
    let mut d = rain[0];
    d.y = 760_000;
    d.r = 20000;
    d.momentum = 30000;
    d.next_spawn = 1_000_000;
    engine.step_drops(1000, vec![d], &Vec::new());
    let (_, sprites) = engine.step_drops(1000, Vec::new(), &vec![quiet_draws()]);
    assert!(sprites.is_empty());
    assert!(engine.drops().is_empty());
    assert!(uniform_below(3) < 3);
}

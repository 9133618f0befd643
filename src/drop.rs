//! The droplet entity.
use vstd::prelude::*;
use crate::fixed::in_range;

verus! {

/// One falling drop or trail fragment. Lengths, speeds and rates are in
/// thousandths of a simulation unit.
///
/// Drops are told apart by `id`, handed out in creation order; `parent` is the
/// id of the drop that shed this one as a trail fragment, and is used only to
/// keep siblings from merging.
#[derive(Clone, Copy, Debug)]
pub struct Drop {
    pub x: i64,
    pub y: i64,
    pub r: i64,
    pub spread_x: i64,
    pub spread_y: i64,
    pub momentum: i64,
    pub momentum_x: i64,
    pub last_spawn: i64,
    pub next_spawn: i64,
    pub parent: Option<u64>,
    pub id: u64,
    pub is_new: bool,
    pub killed: bool,
    pub shrink: i64,
}

impl Drop {
    /// Every field is within the fixed-point range; speed, smear and shrink
    /// rate are never negative.
    pub open spec fn wf(&self) -> bool {
        &&& in_range(self.x as int)
        &&& in_range(self.y as int)
        &&& in_range(self.r as int)
        &&& in_range(self.spread_x as int)
        &&& in_range(self.spread_y as int)
        &&& in_range(self.momentum as int)
        &&& in_range(self.momentum_x as int)
        &&& in_range(self.last_spawn as int)
        &&& in_range(self.next_spawn as int)
        &&& in_range(self.shrink as int)
        &&& self.momentum >= 0
        &&& self.spread_x >= 0
        &&& self.spread_y >= 0
        &&& self.shrink >= 0
    }

    /// A drop at the origin with nothing set: radius zero, at rest, new and
    /// alive, without a parent.
    pub open spec fn blank() -> Drop {
        Drop {
            x: 0,
            y: 0,
            r: 0,
            spread_x: 0,
            spread_y: 0,
            momentum: 0,
            momentum_x: 0,
            last_spawn: 0,
            next_spawn: 0,
            parent: None,
            id: 0,
            is_new: true,
            killed: false,
            shrink: 0,
        }
    }

    pub fn new() -> (d: Drop)
        ensures
            d == Drop::blank(),
            d.wf(),
    {
        Drop {
            x: 0,
            y: 0,
            r: 0,
            spread_x: 0,
            spread_y: 0,
            momentum: 0,
            momentum_x: 0,
            last_spawn: 0,
            next_spawn: 0,
            parent: None,
            id: 0,
            is_new: true,
            killed: false,
            shrink: 0,
        }
    }

    /// A drop at `(x, y)` of radius `r`, otherwise blank.
    pub fn at(x: i64, y: i64, r: i64) -> (d: Drop)
        ensures
            d == (Drop { x, y, r, ..Drop::blank() }),
    {
        Drop { x, y, r, ..Drop::new() }
    }
}

impl Default for Drop {
    fn default() -> (d: Drop)
        ensures
            d == Drop::blank(),
    {
        Drop::new()
    }
}

} // verus!

//! The pass of one tick over the live drops, as spec functions: each live
//! drop, in sort order, is advanced, merged with smaller drops in its
//! collision window, damped, and kept if alive.
use vstd::prelude::*;
use crate::drop::Drop;
use crate::fixed::{clamp_val, UNIT};
use crate::options::RainDropsOptions;
use crate::physics::{advanced, collides, damped, merged};
use crate::random::DropDraws;
use crate::render::{patch_of, sprite_of, Patch, Sprite};

verus! {

/// What a pass reads and never changes.
pub struct TickEnv {
    pub o: RainDropsOptions,
    /// Tick length.
    pub dt: int,
    /// Simulation height, in thousandths of a unit.
    pub height: int,
    /// Surface pixels per unit, in thousandths.
    pub scale: int,
    /// Cap on the live drops.
    pub cap: int,
    /// Number of live drops when the tick began.
    pub base: int,
}

/// The state of a pass: the sorted live drops (some marked killed by
/// merges), the drops kept for the next tick, the next id, how many drops
/// were spawned this tick, and what to paint.
pub struct Pass {
    pub live: Seq<Drop>,
    pub kept: Seq<Drop>,
    pub next_id: u64,
    pub added: int,
    pub clears: Seq<Patch>,
    pub sprites: Seq<Sprite>,
}

/// End of the collision window of the drop at `i`: the 69 drops after it,
/// or those up to the end.
pub open spec fn window_end(i: int, n: int) -> int {
    if n - i >= 70 {
        i + 70
    } else {
        n
    }
}

/// `cur` tried against the `k` drops of `live` from `start` on, in order:
/// each one it collides with is absorbed and marked killed.
pub open spec fn scan(o: RainDropsOptions, dt: int, cur: Drop, live: Seq<Drop>, start: int, k: nat) -> (
    Drop,
    Seq<Drop>,
)
    decreases k,
{
    if k == 0 {
        (cur, live)
    } else {
        let (c, l) = scan(o, dt, cur, live, start, (k - 1) as nat);
        let j = start + k - 1;
        if collides(o, c, l[j], dt) {
            (merged(o, c, l[j]), l.update(j, Drop { killed: true, ..l[j] }))
        } else {
            (c, l)
        }
    }
}

/// The pass after visiting the drop at `i` with the draws `w`. A drop already
/// killed is skipped. A trail fragment may be shed while the live drops and
/// this tick's spawns stay under the cap. A drop killed while advancing is
/// dropped; one that moved, or is new, then absorbs what it collides with in
/// its window. The survivor is damped, kept, cleared around if it moved, and
/// painted.
pub open spec fn visit(e: TickEnv, st: Pass, i: int, w: DropDraws) -> Pass {
    let d = st.live[i];
    if d.killed {
        st
    } else {
        let spawn_ok = e.base + st.added < e.cap && st.next_id < u64::MAX;
        let (a, child) = advanced(e.o, d, e.dt, e.height, spawn_ok, w, st.next_id);
        let st1 = if child is Some {
            Pass {
                kept: st.kept.push(child->Some_0),
                next_id: (st.next_id + 1) as u64,
                added: st.added + 1,
                ..st
            }
        } else {
            st
        };
        if a.killed {
            st1
        } else {
            let moved = a.momentum > 0;
            let a1 = Drop { is_new: false, ..a };
            let (c, l) = if moved || a.is_new {
                scan(e.o, e.dt, a1, st1.live, i + 1, (window_end(i, st1.live.len() as int) - (i + 1)) as nat)
            } else {
                (a1, st1.live)
            };
            let c2 = damped(e.o, c, e.dt);
            Pass {
                live: l,
                kept: st1.kept.push(c2),
                clears: if moved && e.o.droplets_rate > 0 {
                    st1.clears.push(
                        patch_of(
                            e.scale,
                            c2.x as int,
                            c2.y as int,
                            clamp_val(c2.r * e.o.droplets_cleaning_radius_multiplier / UNIT as int),
                        ),
                    )
                } else {
                    st1.clears
                },
                sprites: st1.sprites.push(sprite_of(e.o, e.scale, c2)),
                ..st1
            }
        }
    }
}

/// The pass after visiting the first `k` drops.
pub open spec fn run(e: TickEnv, st0: Pass, draws: Seq<DropDraws>, k: nat) -> Pass
    decreases k,
{
    if k == 0 {
        st0
    } else {
        visit(e, run(e, st0, draws, (k - 1) as nat), k - 1, draws[k - 1])
    }
}

} // verus!

//! The ascent phase of a firework: a rocket climbs one row per qualifying
//! tick until it reaches its target height, then detonates into an
//! `Explosion` that all later qualifying ticks are forwarded to.

use vstd::prelude::*;
use crate::explosion::{exp_fly_rel, fresh_burst, gate_fires, burst_pixels, Explosion};
use crate::pixel::{Color, Pixel, ScreenPos};
use crate::rng::{rand_range, random_color};

verus! {

/// A single firework: a rocket while `explosion` is `None`, a burst once it
/// is `Some`. `lifetime_ms` is the wall-clock budget the driver counts down;
/// reaching zero marks the firework for culling whatever its phase.
pub struct Firework {
    pub pos: ScreenPos,
    pub target: ScreenPos,
    pub lifetime_ms: i64,
    pub speed: u64,
    pub speed_target: u64,
    pub explosion: Option<Explosion>,
    pub color: Color,
}

/// How one call to `fly` changes a firework. The accumulator grows; on a
/// qualifying tick the rocket either climbs one row, or — having reached its
/// target height — detonates exactly once, or forwards the tick to the burst
/// it already carries. Creating the burst consumes the whole qualifying
/// tick: the new burst is not advanced on the tick of its birth.
pub open spec fn fw_fly_rel(pre: Firework, post: Firework, fps: u64) -> bool {
    &&& post.target == pre.target
    &&& post.lifetime_ms == pre.lifetime_ms
    &&& post.speed == pre.speed
    &&& post.color == pre.color
    &&& if !gate_fires(pre.speed, pre.speed_target, fps) {
        &&& post.pos == pre.pos
        &&& post.explosion == pre.explosion
        &&& post.speed_target == pre.speed_target + fps
    } else {
        &&& post.speed_target == 0
        &&& if pre.target.y < pre.pos.y {
            &&& post.pos.x == pre.pos.x
            &&& post.pos.y == pre.pos.y - 1
            &&& post.explosion == pre.explosion
        } else {
            &&& post.pos == pre.pos
            &&& match (pre.explosion, post.explosion) {
                (None, Some(e)) => fresh_burst(e, pre.target),
                (Some(e0), Some(e1)) => exp_fly_rel(e0, e1, fps),
                _ => false,
            }
        }
    }
}

/// The renderable pixels of a firework: the burst's particles once it has
/// detonated, else the single rocket glyph.
pub open spec fn fw_pixels(f: Firework) -> Seq<Pixel> {
    match f.explosion {
        Some(e) => burst_pixels(e),
        None => seq![Pixel { glyph: '#', pos: f.pos, fg: Some(f.color), bg: None }],
    }
}

/// What `spawn_firework` promises of every outcome of the random draws.
pub open spec fn spawned_fw(f: Firework, w: u16, h: u16) -> bool {
    &&& f.wf()
    &&& f.pos.x < w
    &&& f.target.x == f.pos.x
    &&& f.pos.y == h - 1
    &&& 8 <= f.target.y < h - 3
    &&& 1000 <= f.lifetime_ms < 2000
    &&& 1 <= f.speed < 10
    &&& f.speed_target == 0
    &&& f.explosion is None
}

impl Firework {
    /// The internal invariant: a sane gate, and once a burst exists the
    /// rocket has stopped at or above its target height (it never ascends
    /// past a live burst).
    pub open spec fn wf(self) -> bool {
        &&& 1 <= self.speed <= 9
        &&& self.speed_target < self.speed
        &&& match self.explosion {
            Some(e) => e.wf() && self.pos.y <= self.target.y,
            None => true,
        }
    }

    /// A snapshot of the firework's renderable pixels.
    pub fn pixels(&self) -> (out: Vec<Pixel>)
        ensures
            out@ == fw_pixels(*self),
    {
        match &self.explosion {
            Some(e) => e.pixels(),
            None => {
                let mut v: Vec<Pixel> = Vec::new();
                v.push(Pixel::new('#', self.pos, Some(self.color), None));
                proof {
                    assert(v@ =~= fw_pixels(*self));
                }
                v
            }
        }
    }

    /// Advance the firework by one tick.
    pub fn fly(&mut self, fps: u64, rng: &mut rand::rngs::ThreadRng)
        requires
            old(self).wf(),
            fps <= u64::MAX - 9,
        ensures
            final(self).wf(),
            fw_fly_rel(*old(self), *final(self), fps),
    {
        self.speed_target = self.speed_target + fps;
        if self.speed <= self.speed_target {
            self.speed_target = 0;
            if self.target.y < self.pos.y {
                self.pos.y = self.pos.y - 1;
            } else {
                match &mut self.explosion {
                    None => {
                        self.explosion = Some(Explosion::new(self.target, rng));
                    },
                    Some(e) => {
                        e.fly(fps);
                    },
                }
            }
        }
    }
}

/// Law: while no burst exists the rocket's row never grows, and on each
/// qualifying tick above the target it falls by exactly one; once the rocket
/// is at or above its target height the next qualifying tick creates the
/// burst; and an existing burst is never replaced by a new one.
pub proof fn lemma_firework_ascent(pre: Firework, post: Firework, fps: u64)
    requires
        pre.wf(),
        fw_fly_rel(pre, post, fps),
    ensures
        pre.explosion is None ==> post.pos.y <= pre.pos.y,
        pre.explosion is None && gate_fires(pre.speed, pre.speed_target, fps)
            && pre.target.y < pre.pos.y ==> post.pos.y == pre.pos.y - 1 && post.explosion is None,
        pre.explosion is None && gate_fires(pre.speed, pre.speed_target, fps)
            && pre.pos.y <= pre.target.y ==> post.explosion is Some
            && fresh_burst(post.explosion->0, pre.target),
        pre.explosion is Some ==> post.explosion is Some,
{
}

/// A new rocket at the bottom row of a `w` by `h` screen: a random column,
/// a random detonation height in the band `[8, h - 3)`, a random ascent
/// speed in `[1, 10)`, a random lifetime in `[1000, 2000)` milliseconds and
/// a random trail colour.
pub fn spawn_firework(w: u16, h: u16, rng: &mut rand::rngs::ThreadRng) -> (f: Firework)
    requires
        1 <= w,
        12 <= h,
    ensures
        spawned_fw(f, w, h),
{
    let x = rand_range(rng, 0, w as u64) as u16;
    let target_y = rand_range(rng, 8, (h - 3) as u64) as u16;
    let lifetime = rand_range(rng, 1000, 2000) as i64;
    let speed = rand_range(rng, 1, 10);
    let color = random_color(rng);
    Firework {
        pos: ScreenPos::new(x, h - 1),
        target: ScreenPos::new(x, target_y),
        lifetime_ms: lifetime,
        speed,
        speed_target: 0,
        explosion: None,
        color,
    }
}

} // verus!

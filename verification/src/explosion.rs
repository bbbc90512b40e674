//! The burst phase of a firework: a set of particles that start at the
//! detonation point and drift one cell per qualifying tick, fading out when
//! the burst's `life` budget runs out.

use vstd::prelude::*;
use crate::pixel::{Pixel, ScreenPos};
use crate::rng::{rand_range, random_color};
use crate::trig::{burst_dx, burst_dy, burst_offset, MAX_R};

verus! {

/// Does the frame-rate gate fire on this tick? Each tick adds the tick rate
/// `fps` to the accumulator `speed_target`; one unit of motion happens only
/// once the accumulator has reached the entity's `speed` threshold, and the
/// accumulator then resets. An entity with `speed == 1` moves every tick; an
/// entity with `speed == 9` moves about once every nine ticks.
pub open spec fn gate_fires(speed: u64, speed_target: u64, fps: u64) -> bool {
    speed <= speed_target + fps
}

/// Clamp an unbounded coordinate to the screen coordinate range.
pub open spec fn clamp16(v: int) -> int {
    if v < 0 { 0 } else if v > 0xffff { 0xffff } else { v }
}

/// The unclamped x motion of a burst particle, in cells: the truncation of
/// one step along the unit vector `pos - target`. A coordinate short of its
/// target's falls by one (the component is negative, and truncation toward
/// zero of the whole position rounds it a full cell down); a coordinate past
/// its target's rises by one only when the other axis is aligned, since
/// otherwise the component is a proper fraction that truncation discards.
pub open spec fn step_dx(p: ScreenPos, t: ScreenPos) -> int {
    if p.x < t.x { -1 } else if p.x > t.x && p.y == t.y { 1 } else { 0 }
}

/// The unclamped y motion of a burst particle, in cells.
pub open spec fn step_dy(p: ScreenPos, t: ScreenPos) -> int {
    if p.y < t.y { -1 } else if p.y > t.y && p.x == t.x { 1 } else { 0 }
}

/// One motion step of a burst particle toward (away from) its target,
/// clamped to the screen.
pub open spec fn stepped(p: ScreenPos, t: ScreenPos) -> ScreenPos {
    ScreenPos {
        x: clamp16(p.x + step_dx(p, t)) as u16,
        y: clamp16(p.y + step_dy(p, t)) as u16,
    }
}

/// Law: a motion step is clamped, never wrapped: both components stay
/// non-negative even when the target lies at a negative offset beyond the
/// screen edge, and a step moves each coordinate by at most one cell.
pub proof fn lemma_step_clamped(p: ScreenPos, t: ScreenPos)
    ensures
        stepped(p, t).x >= 0,
        stepped(p, t).y >= 0,
        p.x == 0 ==> stepped(p, t).x <= 1,
        stepped(p, t).x - p.x <= 1,
        p.x - stepped(p, t).x <= 1,
        stepped(p, t).y - p.y <= 1,
        p.y - stepped(p, t).y <= 1,
{
}

/// A burst: particles paired with the fixed targets they drift about, a
/// frame-rate gate, and a remaining `life` budget of qualifying ticks.
pub struct Explosion {
    pub origin: ScreenPos,
    pub pixels: Vec<(Pixel, ScreenPos)>,
    pub speed: u64,
    pub speed_target: u64,
    pub life: u8,
}

/// Nothing about the burst changed.
pub open spec fn unchanged_exp(pre: Explosion, post: Explosion) -> bool {
    &&& post.origin == pre.origin
    &&& post.pixels@ == pre.pixels@
    &&& post.speed == pre.speed
    &&& post.speed_target == pre.speed_target
    &&& post.life == pre.life
}

/// One particle advanced by one motion step: its target and looks are kept,
/// its position moves by `stepped`.
pub open spec fn moved_pixel(pre: (Pixel, ScreenPos), post: (Pixel, ScreenPos)) -> bool {
    &&& post.1 == pre.1
    &&& post.0.glyph == pre.0.glyph
    &&& post.0.fg == pre.0.fg
    &&& post.0.bg == pre.0.bg
    &&& post.0.pos == stepped(pre.0.pos, pre.1)
}

pub open spec fn moved_pixels(pre: Seq<(Pixel, ScreenPos)>, post: Seq<(Pixel, ScreenPos)>) -> bool {
    &&& post.len() == pre.len()
    &&& forall|i: int| 0 <= i < pre.len() ==> moved_pixel(pre[i], #[trigger] post[i])
}

/// How one call to `fly` changes a burst. A spent burst (`life == 0`) is
/// inert. Otherwise the accumulator grows; on a qualifying tick `life` falls
/// by one, and either the burst dissipates (its particles are cleared, for
/// good) or every particle takes one motion step.
pub open spec fn exp_fly_rel(pre: Explosion, post: Explosion, fps: u64) -> bool {
    if pre.life == 0 {
        unchanged_exp(pre, post)
    } else if !gate_fires(pre.speed, pre.speed_target, fps) {
        &&& post.origin == pre.origin
        &&& post.pixels@ == pre.pixels@
        &&& post.speed == pre.speed
        &&& post.life == pre.life
        &&& post.speed_target == pre.speed_target + fps
    } else {
        &&& post.origin == pre.origin
        &&& post.speed == pre.speed
        &&& post.speed_target == 0
        &&& post.life == pre.life - 1
        &&& (post.life == 0 ==> post.pixels@.len() == 0)
        &&& (post.life != 0 ==> moved_pixels(pre.pixels@, post.pixels@))
    }
}

/// A burst target lies within `r` cells of the origin on each axis, the
/// clamped-to-screen form of the disk bound.
pub open spec fn chebyshev_near(o: ScreenPos, t: ScreenPos, r: int) -> bool {
    &&& t.x <= o.x + r
    &&& o.x <= t.x + r
    &&& t.y <= o.y + r
    &&& o.y <= t.y + r
}

/// The target is an actual outcome of the polar disk sampler for some pair
/// of angle and radius draws, offset from the origin and clamped to the
/// screen.
pub open spec fn sampled_target(origin: ScreenPos, t: ScreenPos) -> bool {
    exists|a: int, b: int|
        0 <= a < 100 && 0 <= b < 100 && t.x == clamp16(origin.x + #[trigger] burst_dx(a, b))
            && t.y == clamp16(origin.y + burst_dy(a, b))
}

/// One freshly created burst particle: a `'*'` glyph at the origin with some
/// foreground colour, paired with a sampled target inside the burst disk.
pub open spec fn fresh_burst_pixel(pp: (Pixel, ScreenPos), origin: ScreenPos) -> bool {
    &&& pp.0.glyph == '*'
    &&& pp.0.pos == origin
    &&& pp.0.fg is Some
    &&& pp.0.bg is None
    &&& chebyshev_near(origin, pp.1, MAX_R as int)
    &&& sampled_target(origin, pp.1)
}

/// What `Explosion::new` promises of every outcome of the random draws.
pub open spec fn fresh_burst(e: Explosion, origin: ScreenPos) -> bool {
    &&& e.wf()
    &&& e.origin == origin
    &&& e.speed == 1
    &&& e.speed_target == 0
    &&& 2 <= e.life < 7
    &&& 3 <= e.pixels@.len() < 10
    &&& forall|i: int|
        0 <= i < e.pixels@.len() ==> fresh_burst_pixel(#[trigger] e.pixels@[i], origin)
}

/// The particles of a burst, in order.
pub open spec fn burst_pixels(e: Explosion) -> Seq<Pixel> {
    Seq::new(e.pixels@.len(), |i: int| e.pixels@[i].0)
}

impl Explosion {
    /// The internal invariant: a sane gate, and a spent burst holds no
    /// particles.
    pub open spec fn wf(self) -> bool {
        &&& 1 <= self.speed <= 9
        &&& self.speed_target < self.speed
        &&& (self.life == 0 ==> self.pixels@.len() == 0)
    }

    /// A burst at `origin`: between 3 and 9 particles, each starting at the
    /// origin with a random colour and a target sampled area-uniformly from
    /// the burst disk, a gate of speed 1, and a life budget in `[2, 7)`.
    pub fn new(origin: ScreenPos, rng: &mut rand::rngs::ThreadRng) -> (e: Explosion)
        ensures
            fresh_burst(e, origin),
    {
        let num_particles = rand_range(rng, 3, 10);
        let mut pixels: Vec<(Pixel, ScreenPos)> = Vec::new();
        let mut i: u64 = 0;
        while i < num_particles
            invariant
                i <= num_particles,
                3 <= num_particles < 10,
                pixels@.len() == i,
                forall|j: int| 0 <= j < i ==> fresh_burst_pixel(#[trigger] pixels@[j], origin),
            decreases num_particles - i,
        {
            let color = random_color(rng);
            let p = Pixel::new('*', origin, Some(color), None);
            let a = rand_range(rng, 0, 100);
            let b = rand_range(rng, 0, 100);
            let d = burst_offset(a, b);
            let target = ScreenPos::new(
                offset_coord(origin.x, d.0),
                offset_coord(origin.y, d.1),
            );
            proof {
                assert(target.x == clamp16(origin.x + burst_dx(a as int, b as int)));
                assert(target.y == clamp16(origin.y + burst_dy(a as int, b as int)));
                assert(sampled_target(origin, target));
            }
            pixels.push((p, target));
            i = i + 1;
        }
        let life = rand_range(rng, 2, 7);
        Explosion { origin, pixels, speed: 1, speed_target: 0, life: life as u8 }
    }

    /// A snapshot of the burst's particles for rendering.
    pub fn pixels(&self) -> (out: Vec<Pixel>)
        ensures
            out@ == burst_pixels(*self),
    {
        let mut out: Vec<Pixel> = Vec::new();
        let n = self.pixels.len();
        let mut i: usize = 0;
        while i < n
            invariant
                i <= n,
                n == self.pixels@.len(),
                out@.len() == i,
                forall|j: int| 0 <= j < i ==> out@[j] == self.pixels@[j].0,
            decreases n - i,
        {
            out.push(self.pixels[i].0);
            i = i + 1;
        }
        proof {
            assert(out@ =~= burst_pixels(*self));
        }
        out
    }

    /// Advance the burst by one tick.
    pub fn fly(&mut self, fps: u64)
        requires
            old(self).wf(),
            fps <= u64::MAX - 9,
        ensures
            final(self).wf(),
            exp_fly_rel(*old(self), *final(self), fps),
    {
        if self.life == 0 {
            return;
        }
        self.speed_target = self.speed_target + fps;
        if self.speed <= self.speed_target {
            self.speed_target = 0;
            self.life = self.life - 1;
            if self.life == 0 {
                self.pixels.clear();
            }
            let ghost base = self.pixels@;
            let n = self.pixels.len();
            let mut i: usize = 0;
            while i < n
                invariant
                    i <= n,
                    n == self.pixels@.len(),
                    base.len() == n,
                    self.origin == old(self).origin,
                    self.speed == old(self).speed,
                    self.speed_target == 0,
                    self.life == old(self).life - 1,
                    self.life != 0 ==> base == old(self).pixels@,
                    self.life == 0 ==> base.len() == 0,
                    forall|j: int| i <= j < n ==> self.pixels@[j] == base[j],
                    forall|j: int| 0 <= j < i ==> moved_pixel(base[j], #[trigger] self.pixels@[j]),
                decreases n - i,
            {
                let np = step_particle(self.pixels[i].0.pos, self.pixels[i].1);
                let elem = &mut self.pixels[i];
                elem.0.pos = np;
                i = i + 1;
            }
        }
    }
}

/// Law: on each qualifying tick a live burst's `life` falls by exactly one
/// until it reaches zero; once spent, the burst's particles are empty and
/// every later tick leaves the burst exactly as it is.
pub proof fn lemma_explosion_life(pre: Explosion, post: Explosion, fps: u64)
    requires
        pre.wf(),
        exp_fly_rel(pre, post, fps),
    ensures
        post.wf(),
        pre.life > 0 && gate_fires(pre.speed, pre.speed_target, fps) ==> post.life
            == pre.life - 1,
        pre.life > 0 && !gate_fires(pre.speed, pre.speed_target, fps) ==> post.life == pre.life,
        pre.life == 0 ==> unchanged_exp(pre, post) && post.pixels@.len() == 0,
{
}

/// Law: the frame-rate gate quantizes motion. On a tick of a live burst,
/// `life` falls (one unit of motion happens) exactly when the accumulated
/// tick rate since the last step reaches the speed threshold; otherwise the
/// tick only accumulates and nothing else changes.
pub proof fn lemma_gate_quantizes(pre: Explosion, post: Explosion, fps: u64)
    requires
        pre.wf(),
        pre.life > 0,
        exp_fly_rel(pre, post, fps),
    ensures
        gate_fires(pre.speed, pre.speed_target, fps) <==> (post.life == pre.life - 1
            && post.speed_target == 0),
        !gate_fires(pre.speed, pre.speed_target, fps) ==> post.pixels@ == pre.pixels@
            && post.speed_target == pre.speed_target + fps,
{
}

/// Clamp `base + d` to the screen coordinate range.
fn offset_coord(base: u16, d: i64) -> (t: u16)
    requires
        -0x10000 <= d <= 0x10000,
    ensures
        t == clamp16(base + d),
{
    if d >= 0 {
        let s: u64 = base as u64 + d as u64;
        if s > 0xffff { 0xffff } else { s as u16 }
    } else {
        let m: u64 = (-d) as u64;
        if (base as u64) < m { 0 } else { (base as u64 - m) as u16 }
    }
}

/// One clamped motion step of one particle.
fn step_particle(p: ScreenPos, t: ScreenPos) -> (q: ScreenPos)
    ensures
        q == stepped(p, t),
{
    let x = if p.x < t.x {
        if p.x == 0 { 0 } else { p.x - 1 }
    } else if p.x > t.x && p.y == t.y {
        if p.x == 0xffff { p.x } else { p.x + 1 }
    } else {
        p.x
    };
    let y = if p.y < t.y {
        if p.y == 0 { 0 } else { p.y - 1 }
    } else if p.y > t.y && p.x == t.x {
        if p.y == 0xffff { p.y } else { p.y + 1 }
    } else {
        p.y
    };
    ScreenPos { x, y }
}

} // verus!

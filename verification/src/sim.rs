//! The simulation driver: the fleet of active fireworks. Each frame it
//! spawns one rocket while under the cap, advances every firework, collects
//! the frame's draw batch, and culls the fireworks whose lifetime has run
//! out, keeping the survivors in their original relative order.

use vstd::prelude::*;
use crate::firework::{fw_fly_rel, fw_pixels, spawn_firework, spawned_fw, Firework};
use crate::pixel::Pixel;

verus! {

/// The fireworks that survive a cull: those whose lifetime is still
/// positive, in their original relative order.
pub open spec fn alive_filter(s: Seq<Firework>) -> Seq<Firework> {
    s.filter(|f: Firework| f.lifetime_ms > 0)
}

/// One firework advanced by one frame: its lifetime falls by the frame
/// interval, then it flies.
pub open spec fn advanced_rel(pre: Firework, post: Firework, fps: u64) -> bool {
    fw_fly_rel(Firework { lifetime_ms: (pre.lifetime_ms - fps) as i64, ..pre }, post, fps)
}

/// The frame's draw batch: the pixels of every firework, in order.
pub open spec fn frame_of(s: Seq<Firework>) -> Seq<Pixel>
    decreases s.len(),
{
    if s.len() == 0 {
        Seq::<Pixel>::empty()
    } else {
        frame_of(s.drop_last()) + fw_pixels(s.last())
    }
}

/// Every survivor of a cull is alive and comes from the original fleet.
proof fn lemma_alive_filter_elems(s: Seq<Firework>)
    ensures
        alive_filter(s).len() <= s.len(),
        forall|i: int|
            0 <= i < alive_filter(s).len() ==> (#[trigger] alive_filter(s)[i]).lifetime_ms > 0
                && s.contains(alive_filter(s)[i]),
    decreases s.len(),
{
    reveal(Seq::filter);
    if s.len() == 0 {
    } else {
        let dl = s.drop_last();
        lemma_alive_filter_elems(dl);
        assert forall|i: int|
            0 <= i < alive_filter(s).len() implies (#[trigger] alive_filter(s)[i]).lifetime_ms > 0
            && s.contains(alive_filter(s)[i]) by {
            let x = alive_filter(s)[i];
            if i < alive_filter(dl).len() {
                assert(x == alive_filter(dl)[i]);
                let j = choose|j: int| 0 <= j < dl.len() && dl[j] == x;
                assert(s[j] == x);
            } else {
                assert(x == s.last());
                assert(s[s.len() - 1] == x);
            }
        }
    }
}

/// The whole frame transition of `tick`, witnessed by the fleet right after
/// spawning (`grown`) and right after flight (`stepped`).
pub open spec fn tick_rel(
    pre: Simulation,
    post: Simulation,
    grown: Seq<Firework>,
    stepped: Seq<Firework>,
    frame: Seq<Pixel>,
    w: u16,
    h: u16,
    fps: u64,
) -> bool {
    &&& post.max_fireworks == pre.max_fireworks
    &&& grown.len() == if pre.fireworks@.len() < pre.max_fireworks {
        pre.fireworks@.len() + 1
    } else {
        pre.fireworks@.len() as nat
    }
    &&& grown.subrange(0, pre.fireworks@.len() as int) == pre.fireworks@
    &&& (pre.fireworks@.len() < pre.max_fireworks ==> spawned_fw(grown.last(), w, h))
    &&& stepped.len() == grown.len()
    &&& (forall|i: int|
        0 <= i < grown.len() ==> advanced_rel(grown[i], #[trigger] stepped[i], fps))
    &&& post.fireworks@ == alive_filter(stepped)
    &&& frame == frame_of(stepped)
}

/// The driver's state: the active fireworks in spawn order, and the spawn
/// cap.
pub struct Simulation {
    pub fireworks: Vec<Firework>,
    pub max_fireworks: usize,
}

impl Simulation {
    /// Between frames every firework is well formed and still has lifetime
    /// left, never more than a fresh spawn's.
    pub open spec fn wf(self) -> bool {
        forall|i: int|
            0 <= i < self.fireworks@.len() ==> (#[trigger] self.fireworks@[i]).wf()
                && 0 < self.fireworks@[i].lifetime_ms < 2000
    }

    /// An empty simulation with the given spawn cap.
    pub fn new(max_fireworks: usize) -> (s: Simulation)
        ensures
            s.wf(),
            s.fireworks@.len() == 0,
            s.max_fireworks == max_fireworks,
    {
        Simulation { fireworks: Vec::new(), max_fireworks }
    }

    /// Spawn one new rocket if the fleet is under the cap; the existing
    /// fireworks are untouched and keep their order.
    pub fn maybe_spawn(&mut self, w: u16, h: u16, rng: &mut rand::rngs::ThreadRng)
        requires
            1 <= w,
            12 <= h,
        ensures
            final(self).max_fireworks == old(self).max_fireworks,
            old(self).fireworks@.len() < old(self).max_fireworks ==> {
                &&& final(self).fireworks@.len() == old(self).fireworks@.len() + 1
                &&& final(self).fireworks@.subrange(0, old(self).fireworks@.len() as int)
                    == old(self).fireworks@
                &&& spawned_fw(final(self).fireworks@.last(), w, h)
            },
            old(self).fireworks@.len() >= old(self).max_fireworks ==> final(self).fireworks@
                == old(self).fireworks@,
    {
        if self.fireworks.len() < self.max_fireworks {
            let f = spawn_firework(w, h, rng);
            self.fireworks.push(f);
            proof {
                assert(self.fireworks@.subrange(0, old(self).fireworks@.len() as int)
                    =~= old(self).fireworks@);
            }
        }
    }

    /// Advance every firework by one frame: count its lifetime down by the
    /// frame interval, fly it, and collect the frame's draw batch in fleet
    /// order. No firework is removed here, so a firework that just expired
    /// still flies and renders once.
    pub fn advance_all(&mut self, fps: u64, rng: &mut rand::rngs::ThreadRng) -> (frame: Vec<
        Pixel,
    >)
        requires
            forall|i: int|
                0 <= i < old(self).fireworks@.len() ==> (#[trigger] old(self).fireworks@[i]).wf(),
            forall|i: int|
                0 <= i < old(self).fireworks@.len() ==> old(self).fireworks@[i].lifetime_ms - fps
                    >= i64::MIN,
            fps <= 0x7fff_ffff_ffff_ffff,
        ensures
            final(self).max_fireworks == old(self).max_fireworks,
            final(self).fireworks@.len() == old(self).fireworks@.len(),
            forall|i: int|
                0 <= i < old(self).fireworks@.len() ==> advanced_rel(
                    old(self).fireworks@[i],
                    #[trigger] final(self).fireworks@[i],
                    fps,
                ) && final(self).fireworks@[i].wf(),
            frame@ == frame_of(final(self).fireworks@),
    {
        let ghost pre_seq = self.fireworks@;
        let mut frame: Vec<Pixel> = Vec::new();
        let n = self.fireworks.len();
        let mut i: usize = 0;
        while i < n
            invariant
                i <= n,
                n == self.fireworks@.len(),
                pre_seq.len() == n,
                fps <= 0x7fff_ffff_ffff_ffff,
                self.max_fireworks == old(self).max_fireworks,
                forall|j: int| 0 <= j < n ==> (#[trigger] pre_seq[j]).wf(),
                forall|j: int| 0 <= j < n ==> pre_seq[j].lifetime_ms - fps >= i64::MIN,
                forall|j: int| i <= j < n ==> self.fireworks@[j] == pre_seq[j],
                forall|j: int|
                    0 <= j < i ==> advanced_rel(pre_seq[j], #[trigger] self.fireworks@[j], fps)
                        && self.fireworks@[j].wf(),
                frame@ == frame_of(self.fireworks@.subrange(0, i as int)),
            decreases n - i,
        {
            let ghost before = self.fireworks@;
            proof {
                assert(self.fireworks@[i as int] == pre_seq[i as int]);
                assert(pre_seq[i as int].wf());
                assert(pre_seq[i as int].lifetime_ms - fps >= i64::MIN);
            }
            let fref = &mut self.fireworks[i];
            let nl: i64 = fref.lifetime_ms - fps as i64;
            fref.lifetime_ms = nl;
            fref.fly(fps, rng);
            let mut px = self.fireworks[i].pixels();
            frame.append(&mut px);
            proof {
                let now = self.fireworks@;
                assert(now.subrange(0, i as int) =~= before.subrange(0, i as int));
                let s1 = now.subrange(0, i + 1);
                assert(s1.drop_last() =~= now.subrange(0, i as int));
                assert(s1.last() == now[i as int]);
            }
            i = i + 1;
        }
        proof {
            assert(self.fireworks@.subrange(0, n as int) =~= self.fireworks@);
        }
        frame
    }

    /// Remove every firework whose lifetime has run out; the survivors keep
    /// their original relative order.
    pub fn cull(&mut self)
        ensures
            final(self).max_fireworks == old(self).max_fireworks,
            final(self).fireworks@ == alive_filter(old(self).fireworks@),
    {
        proof {
            reveal(Seq::filter);
        }
        let ghost pre_seq = self.fireworks@;
        let ghost n = pre_seq.len() as int;
        let mut kept: Vec<Firework> = Vec::new();
        let ghost mut k: int = 0;
        while self.fireworks.len() > 0
            invariant
                0 <= k <= n,
                n == pre_seq.len(),
                self.max_fireworks == old(self).max_fireworks,
                self.fireworks@ == pre_seq.subrange(k, n),
                kept@ == alive_filter(pre_seq.subrange(0, k)),
            decreases n - k,
        {
            let f = self.fireworks.remove(0);
            assert(f == pre_seq[k]);
            if f.lifetime_ms > 0 {
                kept.push(f);
            }
            proof {
                reveal(Seq::filter);
                assert(self.fireworks@ =~= pre_seq.subrange(k + 1, n));
                let s1 = pre_seq.subrange(0, k + 1);
                assert(s1.drop_last() =~= pre_seq.subrange(0, k));
                assert(s1.last() == pre_seq[k]);
                assert(kept@ =~= alive_filter(s1));
                k = k + 1;
            }
        }
        self.fireworks = kept;
        proof {
            assert(pre_seq.subrange(0, n) =~= pre_seq);
        }
    }

    /// One whole frame: spawn under the cap, advance and render everything,
    /// cull the expired. Returns the frame's draw batch. The fleet never
    /// grows beyond the cap: starting at or under it, it stays at or under
    /// it.
    pub fn tick(&mut self, w: u16, h: u16, fps: u64, rng: &mut rand::rngs::ThreadRng) -> (frame:
        Vec<Pixel>)
        requires
            old(self).wf(),
            1 <= w,
            12 <= h,
            fps <= 0x7fff_ffff_ffff_ffff,
        ensures
            final(self).wf(),
            final(self).max_fireworks == old(self).max_fireworks,
            old(self).fireworks@.len() <= old(self).max_fireworks
                ==> final(self).fireworks@.len() <= old(self).max_fireworks,
            final(self).fireworks@.len() <= old(self).fireworks@.len() + 1,
            exists|grown: Seq<Firework>, stepped: Seq<Firework>|
                tick_rel(*old(self), *final(self), grown, stepped, frame@, w, h, fps),
    {
        self.maybe_spawn(w, h, rng);
        let ghost grown = self.fireworks@;
        proof {
            let m = old(self).fireworks@.len() as int;
            assert forall|i: int|
                0 <= i < grown.len() implies (#[trigger] grown[i]).wf() && 0
                < grown[i].lifetime_ms < 2000 by {
                if i < m {
                    assert(grown.subrange(0, m)[i] == grown[i]);
                    assert(old(self).fireworks@[i].wf());
                } else {
                    assert(grown[i] == grown.last());
                }
            }
        }
        let frame = self.advance_all(fps, rng);
        let ghost stepped = self.fireworks@;
        self.cull();
        proof {
            lemma_alive_filter_elems(stepped);
            assert forall|i: int|
                0 <= i < self.fireworks@.len() implies (#[trigger] self.fireworks@[i]).wf() && 0
                < self.fireworks@[i].lifetime_ms < 2000 by {
                let x = self.fireworks@[i];
                assert(x == alive_filter(stepped)[i]);
                assert(stepped.contains(x));
                let j = choose|j: int| 0 <= j < stepped.len() && stepped[j] == x;
                assert(advanced_rel(grown[j], stepped[j], fps));
                assert(stepped[j].wf());
                assert(grown[j].lifetime_ms < 2000);
            }
            let m = old(self).fireworks@.len() as int;
            if old(self).fireworks@.len() >= old(self).max_fireworks {
                assert(grown.subrange(0, m) =~= old(self).fireworks@);
            }
            assert(tick_rel(*old(self), *self, grown, stepped, frame@, w, h, fps));
        }
        frame
    }
}

} // verus!

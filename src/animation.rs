//! Explosions: a sprite sheet played frame by frame on a repeating timer.
use vstd::prelude::*;

use crate::combat::ExplosionInvoke;
use crate::geometry::Point;

verus! {

/// Time a frame stays on screen: two ticks at 60 ticks a second.
pub const ANIMATION_STEP_MS: u64 = 33;

/// Frames of the explosion sheet: a grid of four by four.
pub const EXPLOSION_FRAMES: u32 = 16;

/// A repeating countdown in milliseconds.
#[derive(Clone, Copy, Debug, PartialEq, Eq, Structural)]
pub struct RepeatingTimer {
    pub period_ms: u64,
    pub elapsed_ms: u64,
}

#[derive(Clone, Copy, Debug, PartialEq, Eq, Structural)]
pub struct AnimationTimer {
    pub timer: RepeatingTimer,
    /// Remove the sprite when it reaches its last frame.
    pub play_once: bool,
}

/// A playing explosion.
#[derive(Clone, Copy, Debug, PartialEq, Eq, Structural)]
pub struct Explosion {
    pub translation: Point,
    pub frame: u32,
    pub frame_count: u32,
    pub animation: AnimationTimer,
}

impl RepeatingTimer {
    pub open spec fn wf(self) -> bool {
        self.period_ms > 0 && self.elapsed_ms < self.period_ms
    }

    /// Whether a period ends within the next `delta` milliseconds.
    pub open spec fn finishes(self, delta: u64) -> bool {
        self.elapsed_ms + delta >= self.period_ms
    }

    /// The timer `delta` milliseconds later.
    pub open spec fn ticked(self, delta: u64) -> RepeatingTimer {
        RepeatingTimer {
            period_ms: self.period_ms,
            elapsed_ms: ((self.elapsed_ms + delta) % (self.period_ms as int)) as u64,
        }
    }

    /// Advances the timer; returns whether a period ended.
    pub fn tick(&mut self, delta: u64) -> (finished: bool)
        requires
            old(self).wf(),
        ensures
            finished == old(self).finishes(delta),
            *final(self) == old(self).ticked(delta),
            final(self).wf(),
    {
        let p = self.period_ms;
        let e = self.elapsed_ms;
        let finished = delta >= p - e;
        let rem = delta % p;
        let next = if rem >= p - e { rem - (p - e) } else { e + rem };
        proof {
            let sum = e + rem;
            vstd::arithmetic::div_mod::lemma_add_mod_noop(e as int, delta as int, p as int);
            vstd::arithmetic::div_mod::lemma_small_mod(e as nat, p as nat);
            assert(rem < p) by {
                vstd::arithmetic::div_mod::lemma_mod_bound(delta as int, p as int);
            }
            if sum >= p {
                vstd::arithmetic::div_mod::lemma_mod_sub_multiples_vanish(sum as int, p as int);
                vstd::arithmetic::div_mod::lemma_small_mod((sum - p) as nat, p as nat);
            } else {
                vstd::arithmetic::div_mod::lemma_small_mod(sum as nat, p as nat);
            }
        }
        self.elapsed_ms = next;
        finished
    }
}

impl Explosion {
    pub open spec fn wf(self) -> bool {
        self.frame_count > 0 && self.frame < self.frame_count && self.animation.timer.wf()
    }

    /// The frame shown after this tick.
    pub open spec fn next_frame(self, delta: u64) -> u32 {
        if self.animation.timer.finishes(delta) {
            ((self.frame + 1) % (self.frame_count as int)) as u32
        } else {
            self.frame
        }
    }

    /// The explosion after this tick.
    pub open spec fn animated(self, delta: u64) -> Explosion {
        Explosion {
            frame: self.next_frame(delta),
            animation: AnimationTimer {
                timer: self.animation.timer.ticked(delta),
                ..self.animation
            },
            ..self
        }
    }

    /// Whether a play-once explosion has just reached its last frame.
    pub open spec fn ends(self, delta: u64) -> bool {
        self.animation.timer.finishes(delta) && self.animation.play_once && self.next_frame(delta)
            == self.frame_count - 1
    }

    /// A new explosion where `invoke` asks for one, on its first frame.
    pub fn explosion_spawn_system(invoke: ExplosionInvoke) -> (r: Explosion)
        ensures
            r == (Explosion {
                translation: invoke.translation,
                frame: 0,
                frame_count: EXPLOSION_FRAMES,
                animation: AnimationTimer {
                    timer: RepeatingTimer { period_ms: ANIMATION_STEP_MS, elapsed_ms: 0 },
                    play_once: true,
                },
            }),
            r.wf(),
    {
        Explosion {
            translation: invoke.translation,
            frame: 0,
            frame_count: EXPLOSION_FRAMES,
            animation: AnimationTimer {
                timer: RepeatingTimer { period_ms: ANIMATION_STEP_MS, elapsed_ms: 0 },
                play_once: true,
            },
        }
    }

    /// Advances the animation by `delta` milliseconds: one frame each time
    /// its timer completes a period. Returns whether it is to be removed.
    pub fn animate_sprite(&mut self, delta: u64) -> (despawn: bool)
        requires
            old(self).wf(),
        ensures
            *final(self) == old(self).animated(delta),
            despawn == old(self).ends(delta),
            final(self).wf(),
    {
        let finished = self.animation.timer.tick(delta);
        if finished {
            self.frame = (self.frame + 1) % self.frame_count;
            self.animation.play_once && self.frame == self.frame_count - 1
        } else {
            false
        }
    }
}

} // verus!

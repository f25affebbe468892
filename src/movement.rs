//! Kinematic records and the fixed-step movement integrator with its
//! viewport policies.
use vstd::prelude::*;

use crate::geometry::{
    abs, contained_in, div_toward_zero, is_contained_in_viewport, is_outside_viewport,
    outside_of, trunc_div, Extent, Heading, Point, ViewportSize, MAX_COORD, MAX_ROTATED, UNIT,
    SCALE_ONE, MAX_SCALE,
};

verus! {

/// Simulation ticks per second.
pub const TICKS_PER_SECOND: i64 = 60;

/// Distance per second, in pixels, of a body moving at unit speed.
pub const BASE_SPEED: i64 = 250;

/// Unit speed of a velocity component.
pub const SPEED_ONE: i64 = 1000;

/// Largest magnitude of a velocity component.
pub const MAX_SPEED: i64 = 1_000_000;

/// Largest turn rate, in heading steps per tick.
pub const MAX_TURN: i64 = 1000;

/// Largest displacement of one tick on either axis.
pub const MAX_STEP: i64 = 20_000_000;

/// What happens to a body at the edge of the viewport.
#[derive(Clone, Copy, Debug, PartialEq, Eq, Structural)]
pub enum MovementViewportBehavior {
    /// No effect.
    Unbounded,
    /// The body is removed once it has left the viewport.
    DespawnOnLeave,
    /// The last step is undone when it would take the body out of bounds.
    Contain,
}

#[derive(Clone, Copy, Debug, PartialEq, Eq, Structural)]
pub struct MovementOptions {
    pub viewport_behavior: MovementViewportBehavior,
}

#[derive(Clone, Copy, Debug, PartialEq, Eq, Structural)]
pub struct Movable(pub MovementOptions);

/// A velocity in thousandths of unit speed; `SPEED_ONE` on an axis moves a
/// body `BASE_SPEED` pixels a second along it.
#[derive(Clone, Copy, Debug, PartialEq, Eq, Structural)]
pub struct Velocity {
    pub x: i64,
    pub y: i64,
}

/// Turn rate in heading steps per tick, counterclockwise when positive.
#[derive(Clone, Copy, Debug, PartialEq, Eq, Structural)]
pub struct AngleVelocity(pub i64);

/// Placement of a sprite: centre, heading and uniform scale in thousandths.
#[derive(Clone, Copy, Debug, PartialEq, Eq, Structural)]
pub struct Transform {
    pub translation: Point,
    pub rotation: Heading,
    pub scale: i64,
}

/// A moving entity: everything the integrator reads and writes.
#[derive(Clone, Copy, Debug, PartialEq, Eq, Structural)]
pub struct Body {
    pub transform: Transform,
    pub velocity: Velocity,
    pub angle_velocity: Option<AngleVelocity>,
    pub size: Extent,
    pub movable: Movable,
}

impl Velocity {
    pub open spec fn wf(self) -> bool {
        abs(self.x as int) <= MAX_SPEED && abs(self.y as int) <= MAX_SPEED
    }

    /// The vector turned by `rotation`, with a standard 2D rotation matrix.
    pub open spec fn rotate_spec(self, rotation: Heading) -> Velocity {
        let c = rotation.cos_spec();
        let s = rotation.sin_spec();
        Velocity {
            x: trunc_div(self.x * c - self.y * s, UNIT as int) as i64,
            y: trunc_div(self.x * s + self.y * c, UNIT as int) as i64,
        }
    }

    /// Rotates the vector into the frame given by `rotation`.
    pub fn rotate(self, rotation: Heading) -> (r: Velocity)
        requires
            abs(self.x as int) <= MAX_ROTATED,
            abs(self.y as int) <= MAX_ROTATED,
            rotation.wf(),
        ensures
            r == self.rotate_spec(rotation),
            abs(r.x as int) <= 2 * abs(self.x as int) + 2 * abs(self.y as int),
            abs(r.y as int) <= 2 * abs(self.x as int) + 2 * abs(self.y as int),
    {
        let c = rotation.cos();
        let s = rotation.sin();
        proof {
            lemma_product_bound(self.x as int, c as int);
            lemma_product_bound(self.y as int, s as int);
            lemma_product_bound(self.x as int, s as int);
            lemma_product_bound(self.y as int, c as int);
        }
        let nx = self.x * c - self.y * s;
        let ny = self.x * s + self.y * c;
        let rx = div_toward_zero(nx, UNIT);
        let ry = div_toward_zero(ny, UNIT);
        proof {
            lemma_trunc_div_bound(nx as int, abs(self.x as int) + abs(self.y as int));
            lemma_trunc_div_bound(ny as int, abs(self.x as int) + abs(self.y as int));
        }
        Velocity { x: rx, y: ry }
    }
}

proof fn lemma_product_bound(a: int, b: int)
    requires
        abs(a) <= MAX_ROTATED,
        abs(b) <= UNIT,
    ensures
        abs(a * b) <= abs(a) * UNIT,
        abs(a) * UNIT <= MAX_ROTATED * UNIT,
{
    assert(abs(a * b) == abs(a) * abs(b)) by (nonlinear_arith);
    assert(abs(a) * abs(b) <= abs(a) * UNIT) by (nonlinear_arith)
        requires
            0 <= abs(b) <= UNIT,
            abs(a) >= 0,
    ;
    assert(abs(a) * UNIT <= MAX_ROTATED * UNIT) by (nonlinear_arith)
        requires
            0 <= abs(a) <= MAX_ROTATED,
    ;
}

proof fn lemma_trunc_div_bound(n: int, m: int)
    requires
        m >= 0,
        abs(n) <= 2 * m * UNIT,
    ensures
        abs(trunc_div(n, UNIT as int)) <= 2 * m,
{
    let a = abs(n);
    let u = UNIT as int;
    assert(a / u <= (2 * m * u) / u) by {
        vstd::arithmetic::div_mod::lemma_div_is_ordered(a, 2 * m * u, u);
    }
    assert((2 * m * u) / u == 2 * m) by {
        vstd::arithmetic::div_mod::lemma_div_by_multiple(2 * m, u);
    }
    assert(a / u >= 0) by {
        vstd::arithmetic::div_mod::lemma_div_pos_is_pos(a, u);
    }
}

/// Distance covered in one tick, in milli-pixels, by a velocity component.
pub open spec fn displacement(v: int) -> int {
    trunc_div(v * BASE_SPEED, TICKS_PER_SECOND as int)
}

fn displacement_exec(v: i64) -> (r: i64)
    requires
        abs(v as int) <= MAX_ROTATED,
    ensures
        r == displacement(v as int),
        abs(r as int) <= abs(v as int) * 5,
{
    proof {
        let a = abs(v as int);
        assert(abs(v * BASE_SPEED) == a * BASE_SPEED);
        assert((a * 250) / 60 <= a * 5) by {
            vstd::arithmetic::div_mod::lemma_div_is_ordered(a * 250, a * 300, 60);
            vstd::arithmetic::div_mod::lemma_div_by_multiple(a * 5, 60);
        }
        assert((a * 250) / 60 >= 0) by {
            vstd::arithmetic::div_mod::lemma_div_pos_is_pos(a * 250, 60);
        }
    }
    div_toward_zero(v * BASE_SPEED, TICKS_PER_SECOND)
}

impl Body {
    /// Bounds that the integrator keeps: a positive size, a heading, a
    /// scale, and speed and turn rate within limits.
    pub open spec fn wf(self) -> bool {
        &&& self.size.wf()
        &&& self.transform.rotation.wf()
        &&& 0 < self.transform.scale <= MAX_SCALE
        &&& self.velocity.wf()
        &&& match self.angle_velocity {
            Some(a) => abs(a.0 as int) <= MAX_TURN,
            None => true,
        }
    }

    /// The body's position lies where one more step cannot overflow.
    pub open spec fn in_range(self) -> bool {
        abs(self.transform.translation.x as int) <= MAX_COORD - MAX_STEP
            && abs(self.transform.translation.y as int) <= MAX_COORD - MAX_STEP
    }

    pub open spec fn behavior(self) -> MovementViewportBehavior {
        self.movable.0.viewport_behavior
    }

    /// Heading after this tick's turn.
    pub open spec fn turned_rotation(self) -> Heading {
        match self.angle_velocity {
            Some(a) => self.transform.rotation.turned_spec(a.0 as int),
            None => self.transform.rotation,
        }
    }

    /// The velocity in world space: a turning body moves along its new
    /// heading, any other along its velocity as given.
    pub open spec fn world_velocity(self) -> Velocity {
        match self.angle_velocity {
            Some(_) => self.velocity.rotate_spec(self.turned_rotation()),
            None => self.velocity,
        }
    }

    /// Position after adding one tick's displacement.
    pub open spec fn moved_translation(self) -> Point {
        let v = self.world_velocity();
        Point {
            x: (self.transform.translation.x + displacement(v.x as int)) as i64,
            y: (self.transform.translation.y + displacement(v.y as int)) as i64,
        }
    }

    /// The body after one tick, before removal is decided.
    pub open spec fn advanced(self, vp: ViewportSize) -> Body {
        let p = self.moved_translation();
        let kept = match self.behavior() {
            MovementViewportBehavior::Contain => if contained_in(p, self.size, vp) {
                p
            } else {
                self.transform.translation
            },
            _ => p,
        };
        Body {
            transform: Transform {
                translation: kept,
                rotation: self.turned_rotation(),
                scale: self.transform.scale,
            },
            ..self
        }
    }

    /// Whether the body is removed at the end of this tick.
    pub open spec fn leaves(self, vp: ViewportSize) -> bool {
        self.behavior() == MovementViewportBehavior::DespawnOnLeave && outside_of(
            self.moved_translation(),
            self.size,
            vp,
        )
    }

    /// One tick of movement: turn, move by the world velocity, then apply
    /// the viewport policy. Returns whether the body is to be despawned.
    pub fn advance(&mut self, vp: ViewportSize) -> (despawn: bool)
        requires
            old(self).wf(),
            old(self).in_range(),
            vp.wf(),
        ensures
            *final(self) == old(self).advanced(vp),
            despawn == old(self).leaves(vp),
            final(self).wf(),
            abs(final(self).transform.translation.x - old(self).transform.translation.x)
                <= MAX_STEP,
            abs(final(self).transform.translation.y - old(self).transform.translation.y)
                <= MAX_STEP,
    {
        let velocity = match self.angle_velocity {
            Some(a) => {
                let r = self.transform.rotation.turned(a.0);
                self.transform.rotation = r;
                self.velocity.rotate(r)
            },
            None => self.velocity,
        };
        assert(abs(velocity.x as int) <= 4 * MAX_SPEED && abs(velocity.y as int) <= 4 * MAX_SPEED);
        let dx = displacement_exec(velocity.x);
        let dy = displacement_exec(velocity.y);
        let before = self.transform.translation;
        let moved = Point { x: before.x + dx, y: before.y + dy };
        self.transform.translation = moved;
        match self.movable.0.viewport_behavior {
            MovementViewportBehavior::Unbounded => false,
            MovementViewportBehavior::DespawnOnLeave => is_outside_viewport(moved, self.size, vp),
            MovementViewportBehavior::Contain => {
                if !is_contained_in_viewport(moved, self.size, vp) {
                    self.transform.translation = before;
                }
                false
            },
        }
    }

    /// Extent of the body's box on screen: its size times its scale.
    pub open spec fn scaled_w(self) -> int {
        self.size.w * self.transform.scale / SCALE_ONE as int
    }

    pub open spec fn scaled_h(self) -> int {
        self.size.h * self.transform.scale / SCALE_ONE as int
    }
}

/// The body after one tick per velocity of `vs`, each tick steered by the
/// next velocity.
pub open spec fn steered(b: Body, vp: ViewportSize, vs: Seq<Velocity>) -> Body
    decreases vs.len(),
{
    if vs.len() == 0 {
        b
    } else {
        steered(Body { velocity: vs[0], ..b }.advanced(vp), vp, vs.drop_first())
    }
}

/// A contained body stays within `(viewport - size / 2) / 2` on both axes
/// however it is steered, for any number of ticks.
pub proof fn lemma_contain_keeps_in_bounds(b: Body, vp: ViewportSize, vs: Seq<Velocity>)
    requires
        b.behavior() == MovementViewportBehavior::Contain,
        contained_in(b.transform.translation, b.size, vp),
    ensures
        contained_in(steered(b, vp, vs).transform.translation, b.size, vp),
        steered(b, vp, vs).behavior() == MovementViewportBehavior::Contain,
        steered(b, vp, vs).size == b.size,
    decreases vs.len(),
{
    if vs.len() > 0 {
        let next = Body { velocity: vs[0], ..b }.advanced(vp);
        lemma_contain_keeps_in_bounds(next, vp, vs.drop_first());
    }
}

} // verus!

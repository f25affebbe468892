//! A game session: the player, shots, enemies and explosions on the field,
//! advanced one fixed tick at a time, and the application states around
//! it.
//!
//! Within a tick the phases run in this order: steering, fire, movement,
//! hits on enemies, hits on the player, respawn, explosions. A body that a
//! phase removes is gone for every later phase of the same tick.
use vstd::prelude::*;

use crate::animation::Explosion;
use crate::app_state::{AppState, StateOp, StateStack, apply_ops};
use crate::combat::{
    bodies_collide, cooled_down, enemy_get_hit_system, enemy_hit_player_on_collision_system, hits,
    lemma_hits_len, overlapping_count, player_fire_system, player_on_hit_system, shot_from,
    ExplosionInvoke, Projectile, DEATH_RETURN_DELAY_MS, FIELD_BOUND,
};
use crate::delayed::{fired_ops, pops_leave_a_state, waiting_after, DelayTimer, DelayedCommand, DelayedCommands, StateSetCommand};
use crate::geometry::{abs, contained_in, Extent, Heading, Point, ViewportSize};
use crate::input::{player_keyboard_event_system, steer_spec, PlayerKey};
use crate::movement::{
    AngleVelocity, Body, Movable, MovementOptions, MovementViewportBehavior, Transform, Velocity,
};
use crate::spawn::{
    corner_clear, enemy_body, enemy_respawn_system, fallback_enemy, respawn_due, span_h, span_w, LastEnemyRespawn,
    INITIAL_ENEMIES_COUNT, SPRITE_SCALE,
};

verus! {

/// The shots left after one tick of movement: each moved, and those that
/// left the viewport dropped.
pub open spec fn moved_shots(ps: Seq<Projectile>, vp: ViewportSize) -> Seq<Projectile>
    decreases ps.len(),
{
    if ps.len() == 0 {
        seq![]
    } else {
        let rest = moved_shots(ps.drop_last(), vp);
        let p = ps.last();
        if p.body.leaves(vp) {
            rest
        } else {
            rest.push(Projectile { body: p.body.advanced(vp), ..p })
        }
    }
}

/// The enemies that no shot destroyed; `h` gives each enemy's fate.
pub open spec fn survivors(es: Seq<crate::movement::Body>, h: Seq<Option<usize>>) -> Seq<
    crate::movement::Body,
>
    decreases es.len(),
{
    if es.len() == 0 {
        seq![]
    } else {
        let rest = survivors(es.drop_last(), h);
        if h[es.len() - 1] is None {
            rest.push(es.last())
        } else {
            rest
        }
    }
}

/// An explosion where each destroyed enemy stood.
pub open spec fn blasts(es: Seq<crate::movement::Body>, h: Seq<Option<usize>>) -> Seq<
    ExplosionInvoke,
>
    decreases es.len(),
{
    if es.len() == 0 {
        seq![]
    } else {
        let rest = blasts(es.drop_last(), h);
        if h[es.len() - 1] is None {
            rest
        } else {
            rest.push(ExplosionInvoke { translation: es.last().transform.translation })
        }
    }
}

/// The shots that destroyed no enemy.
pub open spec fn unspent(ps: Seq<Projectile>, h: Seq<Option<usize>>) -> Seq<Projectile>
    decreases ps.len(),
{
    if ps.len() == 0 {
        seq![]
    } else {
        let rest = unspent(ps.drop_last(), h);
        if h.contains(Some((ps.len() - 1) as usize)) {
            rest
        } else {
            rest.push(ps.last())
        }
    }
}

/// The explosions after one tick: each advanced, those that ended dropped.
pub open spec fn animated_all(xs: Seq<Explosion>, delta: u64) -> Seq<Explosion>
    decreases xs.len(),
{
    if xs.len() == 0 {
        seq![]
    } else {
        let rest = animated_all(xs.drop_last(), delta);
        let x = xs.last();
        if x.ends(delta) {
            rest
        } else {
            rest.push(x.animated(delta))
        }
    }
}

/// New explosions, one for each request.
pub open spec fn started(invokes: Seq<ExplosionInvoke>) -> Seq<Explosion>
    decreases invokes.len(),
{
    if invokes.len() == 0 {
        seq![]
    } else {
        started(invokes.drop_last()).push(
            Explosion {
                translation: invokes.last().translation,
                frame: 0,
                frame_count: crate::animation::EXPLOSION_FRAMES,
                animation: crate::animation::AnimationTimer {
                    timer: crate::animation::RepeatingTimer {
                        period_ms: crate::animation::ANIMATION_STEP_MS,
                        elapsed_ms: 0,
                    },
                    play_once: true,
                },
            },
        )
    }
}

pub proof fn lemma_survivors_blasts_len(es: Seq<crate::movement::Body>, h: Seq<Option<usize>>)
    ensures
        survivors(es, h).len() + blasts(es, h).len() == es.len(),
    decreases es.len(),
{
    if es.len() > 0 {
        lemma_survivors_blasts_len(es.drop_last(), h);
    }
}

/// Despawn on leaving: a shot whose move takes it farther than
/// `(viewport + size / 2) / 2` from the origin on either axis is absent
/// after that tick, so no shot movement keeps lies beyond that bound.
pub proof fn lemma_moved_shots_inside(ps: Seq<Projectile>, vp: ViewportSize)
    requires
        forall|i: int|
            0 <= i < ps.len() ==> (#[trigger] ps[i]).body.behavior()
                == MovementViewportBehavior::DespawnOnLeave,
    ensures
        forall|i: int|
            0 <= i < moved_shots(ps, vp).len() ==> !crate::geometry::outside_of(
                (#[trigger] moved_shots(ps, vp)[i]).body.transform.translation,
                moved_shots(ps, vp)[i].body.size,
                vp,
            ),
    decreases ps.len(),
{
    if ps.len() > 0 {
        let rest = ps.drop_last();
        assert forall|i: int| 0 <= i < rest.len() implies (#[trigger] rest[i]).body.behavior()
            == MovementViewportBehavior::DespawnOnLeave by {
            assert(rest[i] == ps[i]);
        }
        lemma_moved_shots_inside(rest, vp);
        let m = moved_shots(ps, vp);
        let r = moved_shots(rest, vp);
        assert forall|i: int| 0 <= i < m.len() implies !crate::geometry::outside_of(
            (#[trigger] m[i]).body.transform.translation,
            m[i].body.size,
            vp,
        ) by {
            if i < r.len() {
                assert(m[i] == r[i]);
            }
        }
    }
}

/// A shot in flight: on the field, and removed once it leaves the viewport.
pub open spec fn in_flight(p: Projectile) -> bool {
    p.body.in_field() && p.body.behavior() == crate::movement::MovementViewportBehavior::DespawnOnLeave
}

/// Moves every shot one tick and drops those that left the viewport.
fn move_shots(ps: &Vec<Projectile>, vp: ViewportSize) -> (r: Vec<Projectile>)
    requires
        vp.wf(),
        forall|i: int| 0 <= i < ps@.len() ==> in_flight(#[trigger] ps@[i]),
    ensures
        r@ == moved_shots(ps@, vp),
        forall|i: int| 0 <= i < r@.len() ==> in_flight(#[trigger] r@[i]),
{
    let mut r: Vec<Projectile> = Vec::new();
    let mut i: usize = 0;
    while i < ps.len()
        invariant
            0 <= i <= ps@.len(),
            vp.wf(),
            forall|k: int| 0 <= k < ps@.len() ==> in_flight(#[trigger] ps@[k]),
            r@ == moved_shots(ps@.take(i as int), vp),
            forall|k: int| 0 <= k < r@.len() ==> in_flight(#[trigger] r@[k]),
        decreases ps@.len() - i,
    {
        proof {
            assert(ps@.take(i + 1).drop_last() =~= ps@.take(i as int));
        }
        let mut p = ps[i];
        let gone = p.body.advance(vp);
        if !gone {
            proof {
                let q = p.body.transform.translation;
                assert(!crate::geometry::outside_of(q, p.body.size, vp));
                assert(crate::geometry::abs(q.x as int) <= crate::combat::FIELD_BOUND);
                assert(crate::geometry::abs(q.y as int) <= crate::combat::FIELD_BOUND);
            }
            r.push(p);
        }
        i += 1;
    }
    proof {
        assert(ps@.take(ps@.len() as int) =~= ps@);
    }
    r
}

/// Every entry of `h` names one of `n` shots.
pub open spec fn names_within(h: Seq<Option<usize>>, n: nat) -> bool {
    forall|i: int| 0 <= i < h.len() ==> (#[trigger] h[i] matches Some(j) ==> j < n)
}

proof fn lemma_hits_within(projs: Seq<Projectile>, enemies: Seq<crate::movement::Body>)
    ensures
        names_within(hits(projs, enemies), projs.len()),
    decreases enemies.len(),
{
    if enemies.len() > 0 {
        lemma_hits_within(projs, enemies.drop_last());
        let prev = hits(projs, enemies.drop_last());
        crate::combat::lemma_first_free_hit_fresh(projs, enemies.last(), prev, 0);
        assert forall|i: int| 0 <= i < hits(projs, enemies).len() implies (#[trigger] hits(
            projs,
            enemies,
        )[i] matches Some(j) ==> j < projs.len()) by {
            if i < prev.len() {
                assert(hits(projs, enemies)[i] == prev[i]);
            }
        }
    }
}

/// Which shots are spent, one flag per shot.
fn spent_flags(n: usize, h: &Vec<Option<usize>>) -> (r: Vec<bool>)
    requires
        names_within(h@, n as nat),
    ensures
        r@.len() == n,
        forall|j: int| 0 <= j < n ==> (#[trigger] r@[j]) == h@.contains(Some(j as usize)),
{
    let mut r: Vec<bool> = Vec::new();
    let mut j: usize = 0;
    while j < n
        invariant
            0 <= j <= n,
            r@.len() == j,
            forall|k: int| 0 <= k < j ==> !(#[trigger] r@[k]),
        decreases n - j,
    {
        r.push(false);
        j += 1;
    }
    let mut i: usize = 0;
    while i < h.len()
        invariant
            0 <= i <= h@.len(),
            names_within(h@, n as nat),
            r@.len() == n,
            forall|k: int| 0 <= k < n ==> (#[trigger] r@[k]) == h@.take(i as int).contains(
                Some(k as usize),
            ),
        decreases h@.len() - i,
    {
        let ghost before = r@;
        let e = h[i];
        assert(h@[i as int] == e);
        match e {
            Some(k) => {
                r.set(k, true);
            },
            None => {},
        }
        proof {
            let t = h@.take(i as int);
            let t1 = h@.take(i + 1);
            assert(t1 =~= t.push(e));
            assert forall|k: int| 0 <= k < n implies (#[trigger] r@[k]) == t1.contains(
                Some(k as usize),
            ) by {
                if t1.contains(Some(k as usize)) {
                    let w = choose|w: int| 0 <= w < t1.len() && t1[w] == Some(k as usize);
                    if w < t.len() {
                        assert(t[w] == t1[w]);
                    }
                }
                if t.contains(Some(k as usize)) {
                    let w = choose|w: int| 0 <= w < t.len() && t[w] == Some(k as usize);
                    assert(t1[w] == t[w]);
                }
                if e == Some(k as usize) {
                    assert(t1[t.len() as int] == e);
                }
            }
        }
        i += 1;
    }
    proof {
        assert(h@.take(h@.len() as int) =~= h@);
    }
    r
}

/// Splits the enemies and shots by the fate `h` gave them: the survivors,
/// the unspent shots, and an explosion for each destroyed enemy.
fn remove_destroyed(
    enemies: &Vec<crate::movement::Body>,
    ps: &Vec<Projectile>,
    h: &Vec<Option<usize>>,
) -> (r: (Vec<crate::movement::Body>, Vec<Projectile>, Vec<ExplosionInvoke>))
    requires
        h@.len() == enemies@.len(),
        names_within(h@, ps@.len()),
    ensures
        r.0@ == survivors(enemies@, h@),
        r.1@ == unspent(ps@, h@),
        r.2@ == blasts(enemies@, h@),
{
    let mut alive: Vec<crate::movement::Body> = Vec::new();
    let mut booms: Vec<ExplosionInvoke> = Vec::new();
    let mut i: usize = 0;
    while i < enemies.len()
        invariant
            0 <= i <= enemies@.len(),
            h@.len() == enemies@.len(),
            alive@ == survivors(enemies@.take(i as int), h@),
            booms@ == blasts(enemies@.take(i as int), h@),
        decreases enemies@.len() - i,
    {
        proof {
            assert(enemies@.take(i + 1).drop_last() =~= enemies@.take(i as int));
        }
        let e = enemies[i];
        match h[i] {
            None => alive.push(e),
            Some(_) => booms.push(ExplosionInvoke { translation: e.transform.translation }),
        }
        i += 1;
    }
    proof {
        assert(enemies@.take(enemies@.len() as int) =~= enemies@);
    }
    let spent = spent_flags(ps.len(), h);
    let mut kept: Vec<Projectile> = Vec::new();
    let mut j: usize = 0;
    while j < ps.len()
        invariant
            0 <= j <= ps@.len(),
            spent@.len() == ps@.len(),
            forall|k: int| 0 <= k < ps@.len() ==> (#[trigger] spent@[k]) == h@.contains(
                Some(k as usize),
            ),
            kept@ == unspent(ps@.take(j as int), h@),
        decreases ps@.len() - j,
    {
        proof {
            assert(ps@.take(j + 1).drop_last() =~= ps@.take(j as int));
        }
        if !spent[j] {
            kept.push(ps[j]);
        }
        j += 1;
    }
    proof {
        assert(ps@.take(ps@.len() as int) =~= ps@);
    }
    (alive, kept, booms)
}

/// Advances every explosion and drops those that ended.
fn animate_all(xs: &Vec<Explosion>, delta: u64) -> (r: Vec<Explosion>)
    requires
        forall|i: int| 0 <= i < xs@.len() ==> (#[trigger] xs@[i]).wf(),
    ensures
        r@ == animated_all(xs@, delta),
        forall|i: int| 0 <= i < r@.len() ==> (#[trigger] r@[i]).wf(),
{
    let mut r: Vec<Explosion> = Vec::new();
    let mut i: usize = 0;
    while i < xs.len()
        invariant
            0 <= i <= xs@.len(),
            forall|k: int| 0 <= k < xs@.len() ==> (#[trigger] xs@[k]).wf(),
            r@ == animated_all(xs@.take(i as int), delta),
            forall|k: int| 0 <= k < r@.len() ==> (#[trigger] r@[k]).wf(),
        decreases xs@.len() - i,
    {
        proof {
            assert(xs@.take(i + 1).drop_last() =~= xs@.take(i as int));
        }
        let mut x = xs[i];
        if !x.animate_sprite(delta) {
            r.push(x);
        }
        i += 1;
    }
    proof {
        assert(xs@.take(xs@.len() as int) =~= xs@);
    }
    r
}

/// Appends an explosion for each request.
fn start_explosions(xs: &mut Vec<Explosion>, invokes: &Vec<ExplosionInvoke>)
    requires
        forall|i: int| 0 <= i < old(xs)@.len() ==> (#[trigger] old(xs)@[i]).wf(),
    ensures
        final(xs)@ == old(xs)@ + started(invokes@),
        forall|i: int| 0 <= i < final(xs)@.len() ==> (#[trigger] final(xs)@[i]).wf(),
{
    let ghost start = xs@;
    let mut i: usize = 0;
    while i < invokes.len()
        invariant
            0 <= i <= invokes@.len(),
            xs@ == start + started(invokes@.take(i as int)),
            forall|k: int| 0 <= k < xs@.len() ==> (#[trigger] xs@[k]).wf(),
        decreases invokes@.len() - i,
    {
        proof {
            assert(invokes@.take(i + 1).drop_last() =~= invokes@.take(i as int));
        }
        let x = Explosion::explosion_spawn_system(invokes[i]);
        xs.push(x);
        proof {
            assert(start + started(invokes@.take(i + 1)) =~= (start + started(
                invokes@.take(i as int),
            )).push(x));
        }
        i += 1;
    }
    proof {
        assert(invokes@.take(invokes@.len() as int) =~= invokes@);
    }
}

proof fn lemma_unspent_in_flight(ps: Seq<Projectile>, h: Seq<Option<usize>>)
    requires
        forall|i: int| 0 <= i < ps.len() ==> in_flight(#[trigger] ps[i]),
    ensures
        forall|i: int| 0 <= i < unspent(ps, h).len() ==> in_flight(#[trigger] unspent(ps, h)[i]),
    decreases ps.len(),
{
    if ps.len() > 0 {
        let rest = ps.drop_last();
        assert forall|i: int| 0 <= i < rest.len() implies in_flight(#[trigger] rest[i]) by {
            assert(rest[i] == ps[i]);
        }
        lemma_unspent_in_flight(rest, h);
        let u = unspent(ps, h);
        let r = unspent(rest, h);
        assert forall|i: int| 0 <= i < u.len() implies in_flight(#[trigger] u[i]) by {
            if i < r.len() {
                assert(u[i] == r[i]);
            } else {
                assert(u[i] == ps[ps.len() - 1]);
            }
        }
    }
}

proof fn lemma_survivors_in_field(es: Seq<Body>, h: Seq<Option<usize>>)
    requires
        forall|i: int| 0 <= i < es.len() ==> (#[trigger] es[i]).in_field(),
    ensures
        forall|i: int| 0 <= i < survivors(es, h).len() ==> (#[trigger] survivors(es, h)[i]).in_field(),
    decreases es.len(),
{
    if es.len() > 0 {
        let rest = es.drop_last();
        assert forall|i: int| 0 <= i < rest.len() implies (#[trigger] rest[i]).in_field() by {
            assert(rest[i] == es[i]);
        }
        lemma_survivors_in_field(rest, h);
        let u = survivors(es, h);
        let r = survivors(rest, h);
        assert forall|i: int| 0 <= i < u.len() implies (#[trigger] u[i]).in_field() by {
            if i < r.len() {
                assert(u[i] == r[i]);
            } else {
                assert(u[i] == es[es.len() - 1]);
            }
        }
    }
}

/// Sizes of the sprites the field is made of, unscaled.
#[derive(Clone, Copy, Debug, PartialEq, Eq, Structural)]
pub struct SpriteSizes {
    pub player: Extent,
    pub player_fire: Extent,
    pub enemy: Extent,
}

impl SpriteSizes {
    pub open spec fn wf(self) -> bool {
        self.player.wf() && self.player_fire.wf() && self.enemy.wf()
    }
}

/// The player's ship as it enters the field: centred horizontally, at the
/// lowest height its containment allows, at rest and facing along the x
/// axis.
pub open spec fn spawned_player(vp: ViewportSize, size: Extent) -> Body {
    Body {
        transform: Transform {
            translation: Point { x: 0, y: -((2 * vp.h - size.h) / 4) as i64 },
            rotation: Heading { index: 0 },
            scale: SPRITE_SCALE,
        },
        velocity: Velocity { x: 0, y: 0 },
        angle_velocity: Some(AngleVelocity(0)),
        size,
        movable: Movable(MovementOptions { viewport_behavior: MovementViewportBehavior::Contain }),
    }
}

pub fn player_spawn_system(vp: ViewportSize, size: Extent) -> (r: Body)
    requires
        vp.wf(),
        size.wf(),
        2 * vp.h >= size.h,
    ensures
        r == spawned_player(vp, size),
        contained_in(r.transform.translation, r.size, vp) <==> 2 * vp.w >= size.w,
{
    let q = (2 * vp.h - size.h) / 4;
    Body {
        transform: Transform {
            translation: Point { x: 0, y: -q },
            rotation: Heading::identity(),
            scale: SPRITE_SCALE,
        },
        velocity: Velocity { x: 0, y: 0 },
        angle_velocity: Some(AngleVelocity(0)),
        size,
        movable: Movable(MovementOptions { viewport_behavior: MovementViewportBehavior::Contain }),
    }
}

/// The player's ship on the field: placed, contained, and kept in bounds.
pub open spec fn player_ok(p: Body, vp: ViewportSize) -> bool {
    &&& p.placed()
    &&& p.behavior() == MovementViewportBehavior::Contain
    &&& contained_in(p.transform.translation, p.size, vp)
}

/// The command queued by the player's death.
pub open spec fn return_to_menu() -> DelayedCommand {
    DelayedCommand::Replace(
        StateSetCommand {
            target: AppState::MainMenu,
            delay: DelayTimer { duration_ms: DEATH_RETURN_DELAY_MS, elapsed_ms: 0 },
        },
    )
}

/// What one tick of play decides before the respawn draw: every phase but
/// the random placement of a new enemy.
pub struct TickPlan {
    /// The ship after steering, before it moves.
    pub steered: Option<Body>,
    pub fired: bool,
    /// Shots on the field after movement and this tick's volley.
    pub shots: Seq<Projectile>,
    pub hits: Seq<Option<usize>>,
    pub survivors: Seq<Body>,
    pub projectiles: Seq<Projectile>,
    /// The ship after moving.
    pub moved: Option<Body>,
    pub dies: bool,
    pub booms: Seq<ExplosionInvoke>,
    pub pending: int,
}

pub struct Game {
    pub viewport: ViewportSize,
    pub sprites: SpriteSizes,
    pub states: StateStack,
    pub commands: DelayedCommands,
    pub player: Option<Body>,
    pub projectiles: Vec<Projectile>,
    pub enemies: Vec<Body>,
    pub explosions: Vec<Explosion>,
    /// Enemies waiting to be spawned.
    pub pending_respawns: u64,
    pub last_enemy_respawn: LastEnemyRespawn,
    pub last_fire_ms: u64,
}

impl Game {
    pub open spec fn wf(&self) -> bool {
        &&& self.viewport.wf()
        &&& self.sprites.wf()
        &&& 2 * self.viewport.w >= self.sprites.player.w
        &&& 2 * self.viewport.h >= self.sprites.player.h
        &&& self.states.wf()
        &&& self.commands.wf()
        &&& (self.player matches Some(p) ==> player_ok(p, self.viewport))
        &&& forall|i: int|
            0 <= i < self.projectiles@.len() ==> in_flight(#[trigger] self.projectiles@[i])
        &&& forall|i: int| 0 <= i < self.enemies@.len() ==> (#[trigger] self.enemies@[i]).in_field()
        &&& forall|i: int| 0 <= i < self.explosions@.len() ==> (#[trigger] self.explosions@[i]).wf()
        &&& self.pending_respawns + self.enemies@.len() <= INITIAL_ENEMIES_COUNT
    }

    /// The deterministic part of one tick of play.
    pub open spec fn plan(&self, pressed: Seq<PlayerKey>, now_ms: u64) -> TickPlan {
        let vp = self.viewport;
        let steered = match self.player {
            Some(p) => Some(steer_spec(p, pressed)),
            None => None,
        };
        let fired = steered is Some && pressed.contains(PlayerKey::Fire) && cooled_down(
            now_ms,
            self.last_fire_ms,
        );
        let volley = if fired {
            seq![
                shot_from(steered.unwrap(), 1, self.sprites.player_fire),
                shot_from(steered.unwrap(), -1, self.sprites.player_fire),
            ]
        } else {
            seq![]
        };
        let moved = match steered {
            Some(p) => Some(p.advanced(vp)),
            None => None,
        };
        let shots = moved_shots(self.projectiles@, vp) + volley;
        let h = hits(shots, self.enemies@);
        let es = survivors(self.enemies@, h);
        let dies = match moved {
            Some(p) => overlapping_count(p, es) > 0,
            None => false,
        };
        let booms = blasts(self.enemies@, h) + if dies {
            seq![ExplosionInvoke { translation: moved.unwrap().transform.translation }]
        } else {
            seq![]
        };
        TickPlan {
            steered,
            fired,
            shots,
            hits: h,
            survivors: es,
            projectiles: unspent(shots, h),
            moved,
            dies,
            booms,
            pending: self.pending_respawns + blasts(self.enemies@, h).len(),
        }
    }

    /// One tick of play, in phase order: the ship is steered by the held
    /// actions and fires if it may; the ship and the shots already in
    /// flight move, shots that left the viewport vanish; each enemy is
    /// destroyed by the first unspent shot that hits it, leaving an
    /// explosion and a pending respawn; a ship overlapping a surviving enemy
    /// explodes and a return to the main menu is queued; a pending enemy may
    /// respawn; explosions play on.
    pub fn play_tick(&mut self, pressed: &Vec<PlayerKey>, now_ms: u64, delta_ms: u64)
        requires
            old(self).wf(),
        ensures
            final(self).wf(),
            final(self).viewport == old(self).viewport,
            final(self).sprites == old(self).sprites,
            final(self).states@ == old(self).states@,
            ({
                let plan = old(self).plan(pressed@, now_ms);
                &&& final(self).last_fire_ms == if plan.fired {
                    now_ms
                } else {
                    old(self).last_fire_ms
                }
                &&& final(self).player == if plan.dies {
                    None
                } else {
                    plan.moved
                }
                &&& final(self).projectiles@ == plan.projectiles
                &&& final(self).explosions@ == animated_all(old(self).explosions@, delta_ms)
                    + started(plan.booms)
                &&& final(self).commands@ == if plan.dies {
                    old(self).commands@.push(return_to_menu())
                } else {
                    old(self).commands@
                }
            }),
            ({
                let plan = old(self).plan(pressed@, now_ms);
                let es = plan.survivors;
                let n = es.len();
                let due = respawn_due(now_ms, old(self).last_enemy_respawn) && plan.pending > 0;
                let vp = old(self).viewport;
                let size = old(self).sprites.enemy;
                &&& final(self).enemies@.len() == n || final(self).enemies@.len() == n + 1
                &&& final(self).enemies@.take(n as int) == es
                &&& final(self).enemies@.len() == n ==> final(self).pending_respawns == plan.pending
                    && final(self).last_enemy_respawn == old(self).last_enemy_respawn
                &&& final(self).enemies@.len() == n + 1 ==> {
                    let e = final(self).enemies@[n as int];
                    &&& due
                    &&& final(self).pending_respawns == plan.pending - 1
                    &&& final(self).last_enemy_respawn == LastEnemyRespawn(Some(now_ms))
                    &&& e == enemy_body(e.transform.translation.x, e.transform.translation.y, size)
                    &&& -span_w(vp, size) <= e.transform.translation.x < span_w(vp, size)
                    &&& -span_h(vp, size) <= e.transform.translation.y < span_h(vp, size)
                    &&& (final(self).player matches Some(p) && bodies_collide(p, e) ==> e
                        == fallback_enemy(final(self).player, vp, size) && forall|i: int|
                        0 <= i < 4 ==> !corner_clear(final(self).player, vp, size, i))
                }
                &&& (due && span_w(vp, size) > 0 && span_h(vp, size) > 0)
                    <==> final(self).enemies@.len() == n + 1
            }),
    {
        let vp = self.viewport;
        let ghost plan = self.plan(pressed@, now_ms);
        let ghost old_enemies = self.enemies@;
        let ghost old_pending = self.pending_respawns;
        let mut volley: Vec<Projectile> = Vec::new();
        let mut ship: Option<Body> = None;
        match self.player {
            Some(p0) => {
                let mut p = p0;
                player_keyboard_event_system(pressed, &mut p);
                let fire = crate::input::has_key(pressed, PlayerKey::Fire);
                volley =
                    player_fire_system(&p, fire, now_ms, &mut self.last_fire_ms, self.sprites.player_fire);
                let _ = p.advance(vp);
                ship = Some(p);
            },
            None => {},
        }
        assert(ship == plan.moved);
        assert(forall|i: int| 0 <= i < volley@.len() ==> in_flight(#[trigger] volley@[i]));
        let mut shots = move_shots(&self.projectiles, vp);
        let ghost moved = shots@;
        shots.append(&mut volley);
        assert(shots@ == plan.shots);
        assert forall|i: int| 0 <= i < shots@.len() implies in_flight(#[trigger] shots@[i]) by {
            if i < moved.len() {
                assert(shots@[i] == moved[i]);
            } else {
                assert(shots@[i] == plan.shots[i]);
            }
        }
        let h = enemy_get_hit_system(&shots, &self.enemies);
        proof {
            lemma_hits_len(shots@, old_enemies);
            lemma_hits_within(shots@, old_enemies);
            lemma_survivors_blasts_len(old_enemies, h@);
            lemma_unspent_in_flight(shots@, h@);
            lemma_survivors_in_field(old_enemies, h@);
        }
        let (alive, kept, mut booms) = remove_destroyed(&self.enemies, &shots, &h);
        self.pending_respawns = self.pending_respawns + booms.len() as u64;
        let mut count = enemy_hit_player_on_collision_system(&ship, &alive);
        let death = player_on_hit_system(&mut count, &mut ship);
        match death {
            Some(d) => {
                booms.push(d.explosion);
                self.commands.insert(d.return_to_menu);
            },
            None => {},
        }
        assert(booms@ == plan.booms);
        self.player = ship;
        self.projectiles = kept;
        self.enemies = alive;
        let spawned = enemy_respawn_system(
            now_ms,
            &mut self.last_enemy_respawn,
            &mut self.pending_respawns,
            &self.player,
            vp,
            self.sprites.enemy,
        );
        let ghost before_spawn = self.enemies@;
        match spawned {
            Some(e) => {
                self.enemies.push(e);
            },
            None => {},
        }
        proof {
            assert(self.enemies@.take(before_spawn.len() as int) =~= before_spawn);
            assert forall|i: int| 0 <= i < self.enemies@.len() implies (
            #[trigger] self.enemies@[i]).in_field() by {
                if i < before_spawn.len() {
                    assert(self.enemies@[i] == before_spawn[i]);
                }
            }
        }
        let mut xs = animate_all(&self.explosions, delta_ms);
        start_explosions(&mut xs, &booms);
        self.explosions = xs;
    }
}

/// Whether a game session is open: play is active or suspended.
pub open spec fn has_playing(s: Seq<AppState>) -> bool {
    s.contains(AppState::Playing)
}

impl Game {
    /// The field holds nothing and every session counter is reset.
    pub open spec fn field_cleared(&self) -> bool {
        &&& self.player is None
        &&& self.projectiles@.len() == 0
        &&& self.enemies@.len() == 0
        &&& self.explosions@.len() == 0
        &&& self.pending_respawns == 0
        &&& self.last_enemy_respawn == LastEnemyRespawn(None)
        &&& self.last_fire_ms == 0
    }

    /// The field as a new session finds it: the ship at its spawn point,
    /// every enemy still pending, and nothing else.
    pub open spec fn field_fresh(&self) -> bool {
        &&& self.player == Some(spawned_player(self.viewport, self.sprites.player))
        &&& self.projectiles@.len() == 0
        &&& self.enemies@.len() == 0
        &&& self.explosions@.len() == 0
        &&& self.pending_respawns == INITIAL_ENEMIES_COUNT
        &&& self.last_enemy_respawn == LastEnemyRespawn(None)
        &&& self.last_fire_ms == 0
    }

    /// The two games hold the same field.
    pub open spec fn same_field(&self, other: &Game) -> bool {
        &&& self.player == other.player
        &&& self.projectiles@ == other.projectiles@
        &&& self.enemies@ == other.enemies@
        &&& self.explosions@ == other.explosions@
        &&& self.pending_respawns == other.pending_respawns
        &&& self.last_enemy_respawn == other.last_enemy_respawn
        &&& self.last_fire_ms == other.last_fire_ms
    }

    /// A game at the main menu, with an empty field.
    pub fn new(viewport: ViewportSize, sprites: SpriteSizes) -> (r: Game)
        requires
            viewport.wf(),
            sprites.wf(),
            2 * viewport.w >= sprites.player.w,
            2 * viewport.h >= sprites.player.h,
        ensures
            r.wf(),
            r.viewport == viewport,
            r.sprites == sprites,
            r.states@ == seq![AppState::MainMenu],
            r.commands@.len() == 0,
            r.field_cleared(),
    {
        Game {
            viewport,
            sprites,
            states: StateStack::new(),
            commands: DelayedCommands::new(),
            player: None,
            projectiles: Vec::new(),
            enemies: Vec::new(),
            explosions: Vec::new(),
            pending_respawns: 0,
            last_enemy_respawn: LastEnemyRespawn(None),
            last_fire_ms: 0,
        }
    }

    /// Opens a session: the ship spawns and the enemies start pending.
    fn begin_session(&mut self)
        requires
            old(self).wf(),
        ensures
            final(self).wf(),
            final(self).field_fresh(),
            final(self).viewport == old(self).viewport,
            final(self).sprites == old(self).sprites,
            final(self).states@ == old(self).states@,
            final(self).commands@ == old(self).commands@,
    {
        self.player = Some(player_spawn_system(self.viewport, self.sprites.player));
        self.projectiles = Vec::new();
        self.enemies = Vec::new();
        self.explosions = Vec::new();
        self.pending_respawns = INITIAL_ENEMIES_COUNT;
        self.last_enemy_respawn = LastEnemyRespawn(None);
        self.last_fire_ms = 0;
    }

    /// Closes a session: everything on the field is removed.
    fn end_session(&mut self)
        requires
            old(self).wf(),
        ensures
            final(self).wf(),
            final(self).field_cleared(),
            final(self).viewport == old(self).viewport,
            final(self).sprites == old(self).sprites,
            final(self).states@ == old(self).states@,
            final(self).commands@ == old(self).commands@,
    {
        self.player = None;
        self.projectiles = Vec::new();
        self.enemies = Vec::new();
        self.explosions = Vec::new();
        self.pending_respawns = 0;
        self.last_enemy_respawn = LastEnemyRespawn(None);
        self.last_fire_ms = 0;
    }

    /// Whether play is the active state.
    pub fn is_playing(&self) -> (r: bool)
        requires
            self.wf(),
        ensures
            r == (self.states@.last() == AppState::Playing),
    {
        self.states.current() == AppState::Playing
    }

    /// Queues a delayed state command.
    pub fn queue(&mut self, cmd: DelayedCommand)
        requires
            old(self).wf(),
            cmd.timer().wf(),
        ensures
            final(self).wf(),
            final(self).commands@ == old(self).commands@.push(cmd),
            final(self).states@ == old(self).states@,
            final(self).same_field(old(self)),
            final(self).viewport == old(self).viewport,
            final(self).sprites == old(self).sprites,
    {
        self.commands.insert(cmd);
    }

    /// Whether the commands due within `delta_ms` can all be applied: no pop
    /// among them meets a stack of one state.
    pub fn due_commands_apply(&self, delta_ms: u64) -> (r: bool)
        requires
            self.wf(),
            self.states@.len() + self.commands@.len() < usize::MAX,
        ensures
            r == pops_leave_a_state(self.states@, fired_ops(self.commands@, delta_ms)),
    {
        self.commands.pops_keep_a_state(&self.states, delta_ms)
    }

    /// Advances the delayed commands by `delta_ms` and applies those that
    /// came due. A session opens when play enters the stack and closes
    /// when it leaves it; pausing and resuming keep the field as it is.
    pub fn advance_states(&mut self, delta_ms: u64) -> (fired: Vec<StateOp>)
        requires
            old(self).wf(),
            old(self).states@.len() + old(self).commands@.len() < usize::MAX,
            pops_leave_a_state(old(self).states@, fired_ops(old(self).commands@, delta_ms)),
        ensures
            final(self).wf(),
            fired@ == fired_ops(old(self).commands@, delta_ms),
            final(self).commands@ == waiting_after(old(self).commands@, delta_ms),
            final(self).states@ == apply_ops(old(self).states@, fired@),
            final(self).viewport == old(self).viewport,
            final(self).sprites == old(self).sprites,
            has_playing(old(self).states@) && !has_playing(final(self).states@)
                ==> final(self).field_cleared(),
            !has_playing(old(self).states@) && has_playing(final(self).states@)
                ==> final(self).field_fresh(),
            has_playing(old(self).states@) == has_playing(final(self).states@)
                ==> final(self).same_field(old(self)),
    {
        let before = self.contains_playing();
        let fired = self.commands.run_due(&mut self.states, delta_ms);
        proof {
            crate::app_state::lemma_ops_keep_nonempty(old(self).states@, fired@);
        }
        let after = self.contains_playing();
        if before && !after {
            self.end_session();
        } else if !before && after {
            self.begin_session();
        }
        fired
    }

    fn contains_playing(&self) -> (r: bool)
        ensures
            r == has_playing(self.states@),
    {
        self.states.contains(AppState::Playing)
    }
}

} // verus!

//! Collisions between bodies, hit resolution, player fire and player death.
use vstd::prelude::*;

use crate::app_state::AppState;
use crate::delayed::DelayedCommand;
use crate::geometry::{
    trunc_div, UNIT, abs, boxes_overlap, overlap, Extent, Point, MAX_EXTENT, SCALE_ONE,
};
use crate::movement::{Body, Movable, MovementOptions, MovementViewportBehavior, Transform, Velocity};

verus! {

/// Shortest time between two volleys of the player, in milliseconds.
pub const FIRE_COOLDOWN_MS: u64 = 250;

/// Time between the player's death and the return to the main menu.
pub const DEATH_RETURN_DELAY_MS: u64 = 2000;

/// How far the muzzles sit inside the ship's side, in milli-pixels.
pub const MUZZLE_INSET: i64 = 5000;

/// Forward speed of a shot, in thousandths of unit speed.
pub const SHOT_SPEED: i64 = 1500;

/// Which side a projectile damages.
#[derive(Clone, Copy, Debug, PartialEq, Eq, Structural)]
pub enum Target {
    Player,
    Enemy,
}

#[derive(Clone, Copy, Debug, PartialEq, Eq, Structural)]
pub struct Projectile {
    pub target: Target,
    pub body: Body,
}

/// Where an explosion is to be shown.
#[derive(Clone, Copy, Debug, PartialEq, Eq, Structural)]
pub struct ExplosionInvoke {
    pub translation: Point,
}

/// Distance from the origin within which every body of a game stays.
pub const FIELD_BOUND: i64 = 4 * MAX_EXTENT;

impl Body {
    /// A placed body no farther than `FIELD_BOUND` from the origin on
    /// either axis.
    pub open spec fn in_field(self) -> bool {
        &&& self.placed()
        &&& abs(self.transform.translation.x as int) <= FIELD_BOUND
        &&& abs(self.transform.translation.y as int) <= FIELD_BOUND
    }

    /// A well-formed body whose position the box tests can take.
    pub open spec fn placed(self) -> bool {
        self.wf() && self.transform.translation.in_range() && self.transform.scale <= SCALE_ONE
    }

    /// The box the body occupies on screen, as (width, height): its size
    /// times its scale.
    pub fn box_extent(&self) -> (r: (i64, i64))
        requires
            self.placed(),
        ensures
            r.0 == self.scaled_w(),
            r.1 == self.scaled_h(),
            0 <= r.0 <= MAX_EXTENT,
            0 <= r.1 <= MAX_EXTENT,
    {
        let s = self.transform.scale;
        proof {
            lemma_scaled_bounds(*self);
        }
        (self.size.w * s / SCALE_ONE, self.size.h * s / SCALE_ONE)
    }
}

/// Whether the boxes of two bodies overlap; rotation is not considered.
pub open spec fn bodies_collide(a: Body, b: Body) -> bool {
    boxes_overlap(
        a.transform.translation,
        a.scaled_w(),
        a.scaled_h(),
        b.transform.translation,
        b.scaled_w(),
        b.scaled_h(),
    )
}

pub fn collide(a: &Body, b: &Body) -> (r: bool)
    requires
        a.placed(),
        b.placed(),
    ensures
        r == bodies_collide(*a, *b),
{
    let (aw, ah) = a.box_extent();
    let (bw, bh) = b.box_extent();
    overlap(a.transform.translation, aw, ah, b.transform.translation, bw, bh)
}

/// Whether projectile `p` can destroy enemy `e`.
pub open spec fn can_hit(p: Projectile, e: Body) -> bool {
    p.target == Target::Enemy && bodies_collide(p.body, e)
}

/// The first projectile from index `j` on that can destroy `e` and is not
/// already spent in `taken`.
pub open spec fn first_free_hit(
    projs: Seq<Projectile>,
    e: Body,
    taken: Seq<Option<usize>>,
    j: int,
) -> Option<usize>
    decreases projs.len() - j,
{
    if j < 0 || j >= projs.len() {
        None
    } else if can_hit(projs[j], e) && !taken.contains(Some(j as usize)) {
        Some(j as usize)
    } else {
        first_free_hit(projs, e, taken, j + 1)
    }
}

/// For each enemy in turn, the projectile that destroys it, if any: the
/// first one that hits it and has not destroyed an earlier enemy.
pub open spec fn hits(projs: Seq<Projectile>, enemies: Seq<Body>) -> Seq<Option<usize>>
    decreases enemies.len(),
{
    if enemies.len() == 0 {
        seq![]
    } else {
        let prev = hits(projs, enemies.drop_last());
        prev.push(first_free_hit(projs, enemies.last(), prev, 0))
    }
}

pub proof fn lemma_hits_len(projs: Seq<Projectile>, enemies: Seq<Body>)
    ensures
        hits(projs, enemies).len() == enemies.len(),
    decreases enemies.len(),
{
    if enemies.len() > 0 {
        lemma_hits_len(projs, enemies.drop_last());
    }
}

pub(crate) proof fn lemma_first_free_hit_fresh(
    projs: Seq<Projectile>,
    e: Body,
    taken: Seq<Option<usize>>,
    j: int,
)
    ensures
        first_free_hit(projs, e, taken, j) is Some ==> !taken.contains(
            first_free_hit(projs, e, taken, j),
        ),
        first_free_hit(projs, e, taken, j) is Some ==> first_free_hit(projs, e, taken, j).unwrap()
            < projs.len(),
    decreases projs.len() - j,
{
    if 0 <= j < projs.len() {
        lemma_first_free_hit_fresh(projs, e, taken, j + 1);
    }
}

/// A projectile destroys at most one enemy in a tick: no two enemies are
/// credited to the same projectile.
pub proof fn lemma_one_hit_per_projectile(
    projs: Seq<Projectile>,
    enemies: Seq<Body>,
    a: int,
    b: int,
)
    requires
        0 <= a < b < enemies.len(),
        hits(projs, enemies)[a] is Some,
    ensures
        hits(projs, enemies)[a] != hits(projs, enemies)[b],
    decreases enemies.len(),
{
    let prev = hits(projs, enemies.drop_last());
    lemma_hits_len(projs, enemies.drop_last());
    if b < enemies.len() - 1 {
        lemma_one_hit_per_projectile(projs, enemies.drop_last(), a, b);
    } else {
        lemma_first_free_hit_fresh(projs, enemies.last(), prev, 0);
        assert(prev[a] == hits(projs, enemies)[a]);
        if hits(projs, enemies)[a] == hits(projs, enemies)[b] {
            assert(prev.contains(prev[a]));
        }
    }
}

/// Matches projectiles against enemies for this tick. Entry `i` of the
/// result names the projectile that destroys enemy `i`; a projectile is
/// spent on the first enemy it destroys.
pub fn enemy_get_hit_system(projs: &Vec<Projectile>, enemies: &Vec<Body>) -> (r: Vec<Option<usize>>)
    requires
        forall|j: int| 0 <= j < projs@.len() ==> (#[trigger] projs@[j]).body.placed(),
        forall|i: int| 0 <= i < enemies@.len() ==> (#[trigger] enemies@[i]).placed(),
    ensures
        r@ == hits(projs@, enemies@),
{
    let np = projs.len();
    let mut spent: Vec<bool> = Vec::new();
    let mut j: usize = 0;
    while j < np
        invariant
            np == projs@.len(),
            0 <= j <= np,
            spent@.len() == j,
            forall|k: int| 0 <= k < j ==> !(#[trigger] spent@[k]),
        decreases np - j,
    {
        spent.push(false);
        j += 1;
    }
    let mut r: Vec<Option<usize>> = Vec::new();
    let mut i: usize = 0;
    while i < enemies.len()
        invariant
            np == projs@.len(),
            0 <= i <= enemies@.len(),
            forall|j: int| 0 <= j < projs@.len() ==> (#[trigger] projs@[j]).body.placed(),
            forall|k: int| 0 <= k < enemies@.len() ==> (#[trigger] enemies@[k]).placed(),
            r@ == hits(projs@, enemies@.take(i as int)),
            spent@.len() == np,
            forall|k: int| 0 <= k < np ==> (#[trigger] spent@[k]) == r@.contains(Some(k as usize)),
        decreases enemies@.len() - i,
    {
        let e = &enemies[i];
        let ghost taken = r@;
        let mut found: Option<usize> = None;
        let mut j: usize = 0;
        while j < np
            invariant
                np == projs@.len(),
                0 <= j <= np,
                forall|q: int| 0 <= q < projs@.len() ==> (#[trigger] projs@[q]).body.placed(),
                e.placed(),
                spent@.len() == np,
                forall|k: int| 0 <= k < np ==> (#[trigger] spent@[k]) == taken.contains(Some(k as usize)),
                found is None ==> first_free_hit(projs@, *e, taken, 0) == first_free_hit(
                    projs@,
                    *e,
                    taken,
                    j as int,
                ),
                found is Some ==> found == first_free_hit(projs@, *e, taken, 0),
                found matches Some(k) ==> k < np,
            decreases np - j,
        {
            if found.is_none() {
                let p = &projs[j];
                if p.target == Target::Enemy && !spent[j] && collide(&p.body, e) {
                    found = Some(j);
                }
            }
            j += 1;
        }
        proof {
            assert(enemies@.take(i + 1).drop_last() =~= enemies@.take(i as int));
            assert(enemies@.take(i + 1).last() == *e);
        }
        proof {
            lemma_first_free_hit_fresh(projs@, *e, taken, 0);
        }
        let ghost before = spent@;
        match found {
            Some(k) => {
                spent.set(k, true);
            },
            None => {},
        }
        r.push(found);
        proof {
            assert(r@ == taken.push(found));
            assert(r@[taken.len() as int] == found);
            assert forall|k: int| 0 <= k < np implies (#[trigger] spent@[k]) == r@.contains(
                Some(k as usize),
            ) by {
                if r@.contains(Some(k as usize)) {
                    let w = choose|w: int| 0 <= w < r@.len() && r@[w] == Some(k as usize);
                    if w < taken.len() {
                        assert(taken[w] == r@[w]);
                    }
                }
                if taken.contains(Some(k as usize)) {
                    let w = choose|w: int| 0 <= w < taken.len() && taken[w] == Some(k as usize);
                    assert(r@[w] == taken[w]);
                }
                if found == Some(k as usize) {
                    assert(r@[taken.len() as int] == Some(k as usize));
                }
            }
        }
        i += 1;
    }
    proof {
        assert(enemies@.take(enemies@.len() as int) =~= enemies@);
    }
    r
}

/// Number of enemies whose boxes overlap the player's.
pub open spec fn overlapping_count(player: Body, enemies: Seq<Body>) -> nat
    decreases enemies.len(),
{
    if enemies.len() == 0 {
        0
    } else {
        overlapping_count(player, enemies.drop_last()) + if bodies_collide(player, enemies.last()) {
            1nat
        } else {
            0nat
        }
    }
}

/// Counts the hits the player takes this tick: one for each overlapping
/// enemy, none when there is no player.
pub fn enemy_hit_player_on_collision_system(player: &Option<Body>, enemies: &Vec<Body>) -> (r: u64)
    requires
        player matches Some(p) ==> p.placed(),
        forall|i: int| 0 <= i < enemies@.len() ==> (#[trigger] enemies@[i]).placed(),
        enemies@.len() <= u64::MAX,
    ensures
        r == match *player {
            Some(p) => overlapping_count(p, enemies@),
            None => 0,
        },
{
    match player {
        None => 0,
        Some(p) => {
            let mut count: u64 = 0;
            let mut i: usize = 0;
            while i < enemies.len()
                invariant
                    0 <= i <= enemies@.len(),
                    enemies@.len() <= u64::MAX,
                    p.placed(),
                    forall|k: int| 0 <= k < enemies@.len() ==> (#[trigger] enemies@[k]).placed(),
                    count == overlapping_count(*p, enemies@.take(i as int)),
                    count <= i,
                decreases enemies@.len() - i,
            {
                proof {
                    assert(enemies@.take(i + 1).drop_last() =~= enemies@.take(i as int));
                }
                if collide(p, &enemies[i]) {
                    count += 1;
                }
                i += 1;
            }
            proof {
                assert(enemies@.take(enemies@.len() as int) =~= enemies@);
            }
            count
        },
    }
}

/// What the death of the player sets in motion.
#[derive(Clone, Copy, Debug, PartialEq, Eq, Structural)]
pub struct PlayerDeath {
    pub explosion: ExplosionInvoke,
    pub return_to_menu: DelayedCommand,
}

/// The player dies when it has taken a hit: an explosion where it stood,
/// and a delayed return to the main menu. Every pending hit is consumed;
/// with no player the hits stay pending.
pub fn player_on_hit_system(hits: &mut u64, player: &mut Option<Body>) -> (r: Option<PlayerDeath>)
    ensures
        (*old(hits) > 0 && old(player).is_some()) ==> r == Some(
            PlayerDeath {
                explosion: ExplosionInvoke {
                    translation: old(player).unwrap().transform.translation,
                },
                return_to_menu: DelayedCommand::Replace(
                    crate::delayed::StateSetCommand {
                        target: AppState::MainMenu,
                        delay: crate::delayed::DelayTimer {
                            duration_ms: DEATH_RETURN_DELAY_MS,
                            elapsed_ms: 0,
                        },
                    },
                ),
            },
        ) && *final(hits) == 0 && *final(player) == None::<Body>,
        !(*old(hits) > 0 && old(player).is_some()) ==> r == None::<PlayerDeath> && *final(hits)
            == *old(hits) && *final(player) == *old(player),
{
    if *hits == 0 {
        return None;
    }
    match *player {
        None => None,
        Some(p) => {
            *hits = 0;
            *player = None;
            Some(
                PlayerDeath {
                    explosion: ExplosionInvoke { translation: p.transform.translation },
                    return_to_menu: DelayedCommand::replace_after(
                        AppState::MainMenu,
                        DEATH_RETURN_DELAY_MS,
                    ),
                },
            )
        },
    }
}

/// Whether the cooldown has passed since the last volley.
pub open spec fn cooled_down(now_ms: u64, last_fire_ms: u64) -> bool {
    now_ms >= last_fire_ms + FIRE_COOLDOWN_MS
}

/// The offset of a muzzle from the ship's centre, before rotation: `side`
/// is 1 for the right muzzle and -1 for the left.
pub open spec fn muzzle_offset(ship: Body, side: int) -> Velocity {
    let half = ship.scaled_w() / 2 - MUZZLE_INSET;
    Velocity { x: (if side == 1 { half } else { -half }) as i64, y: (ship.scaled_w() / 4) as i64 }
}

/// The shot leaving the muzzle on `side` of `ship`.
pub open spec fn shot_from(ship: Body, side: int, shot_size: Extent) -> Projectile {
    let r = ship.transform.rotation;
    let off = muzzle_offset(ship, side).rotate_spec(r);
    let at = ship.transform.translation;
    Projectile {
        target: Target::Enemy,
        body: Body {
            transform: Transform {
                translation: Point { x: (at.x + off.x) as i64, y: (at.y + off.y) as i64 },
                rotation: r,
                scale: ship.transform.scale,
            },
            velocity: Velocity { x: 0, y: SHOT_SPEED }.rotate_spec(r),
            angle_velocity: None,
            size: shot_size,
            movable: Movable(
                MovementOptions { viewport_behavior: MovementViewportBehavior::DespawnOnLeave },
            ),
        },
    }
}

/// The two shots of a volley mirror each other across the ship's forward
/// axis: before rotation their muzzle offsets differ only in the sign of
/// the sideways part, and both fly with the ship's heading, speed and
/// scale. With the ship facing along its base heading the shots' centres
/// themselves mirror across the ship's centre line.
pub proof fn lemma_volley_symmetric(ship: Body, shot_size: Extent)
    requires
        ship.placed(),
    ensures
        muzzle_offset(ship, 1).x == -muzzle_offset(ship, -1).x,
        muzzle_offset(ship, 1).y == muzzle_offset(ship, -1).y,
        shot_from(ship, 1, shot_size).body.velocity == shot_from(ship, -1, shot_size).body.velocity,
        shot_from(ship, 1, shot_size).body.transform.rotation == ship.transform.rotation,
        shot_from(ship, -1, shot_size).body.transform.rotation == ship.transform.rotation,
        ({
            let at = ship.transform.translation;
            let a = shot_from(ship, 1, shot_size).body.transform.translation;
            let b = shot_from(ship, -1, shot_size).body.transform.translation;
            ship.transform.rotation.index == 0 && abs(at.x as int) <= MAX_EXTENT ==> a.x - at.x
                == -(b.x - at.x) && a.y == b.y
        }),
{
    lemma_scaled_bounds(ship);
    let r = ship.transform.rotation;
    let u = UNIT as int;
    let half = ship.scaled_w() / 2 - MUZZLE_INSET;
    let q = ship.scaled_w() / 4;
    if r.index == 0 {
        assert(r.cos_spec() == u);
        assert(r.sin_spec() == 0);
        assert(half * u - q * 0 == half * u);
        assert((-half) * u - q * 0 == -(half * u)) by (nonlinear_arith);
        assert(q * u + half * 0 == q * u);
        assert(q * u + (-half) * 0 == q * u);
        if half >= 0 {
            vstd::arithmetic::div_mod::lemma_div_by_multiple(half, u);
        } else {
            vstd::arithmetic::div_mod::lemma_div_by_multiple(-half, u);
            assert((-half) * u == -(half * u)) by (nonlinear_arith);
        }
        vstd::arithmetic::div_mod::lemma_div_by_multiple(q, u);
        assert(trunc_div(half * u, u) == half);
        assert(trunc_div(-(half * u), u) == -half);
    }
}

/// A placed body's box is at most `MAX_EXTENT` on either side.
pub proof fn lemma_scaled_bounds(b: Body)
    requires
        b.placed(),
    ensures
        0 <= b.scaled_w() <= MAX_EXTENT,
        0 <= b.scaled_h() <= MAX_EXTENT,
{
    let s = b.transform.scale;
    assert(b.size.w * s <= MAX_EXTENT * SCALE_ONE) by (nonlinear_arith)
        requires
            0 < b.size.w <= MAX_EXTENT,
            0 < s <= SCALE_ONE,
    ;
    assert(b.size.h * s <= MAX_EXTENT * SCALE_ONE) by (nonlinear_arith)
        requires
            0 < b.size.h <= MAX_EXTENT,
            0 < s <= SCALE_ONE,
    ;
    assert(b.size.w * s >= 0) by (nonlinear_arith)
        requires
            0 < b.size.w,
            0 < s,
    ;
    assert(b.size.h * s >= 0) by (nonlinear_arith)
        requires
            0 < b.size.h,
            0 < s,
    ;
    vstd::arithmetic::div_mod::lemma_div_is_ordered(b.size.w * s, MAX_EXTENT * SCALE_ONE, SCALE_ONE as int);
    vstd::arithmetic::div_mod::lemma_div_is_ordered(b.size.h * s, MAX_EXTENT * SCALE_ONE, SCALE_ONE as int);
    vstd::arithmetic::div_mod::lemma_div_by_multiple(MAX_EXTENT as int, SCALE_ONE as int);
    vstd::arithmetic::div_mod::lemma_div_pos_is_pos(b.size.w * s, SCALE_ONE as int);
    vstd::arithmetic::div_mod::lemma_div_pos_is_pos(b.size.h * s, SCALE_ONE as int);
}

fn make_shot(ship: &Body, side: i64, shot_size: Extent) -> (r: Projectile)
    requires
        ship.placed(),
        shot_size.wf(),
        side == 1 || side == -1,
        abs(ship.transform.translation.x as int) <= MAX_EXTENT,
        abs(ship.transform.translation.y as int) <= MAX_EXTENT,
    ensures
        r == shot_from(*ship, side as int, shot_size),
        r.body.in_field(),
{
    let (w, _) = ship.box_extent();
    let half = w / 2 - MUZZLE_INSET;
    let ox = if side == 1 { half } else { -half };
    let off = Velocity { x: ox, y: w / 4 };
    let r = ship.transform.rotation;
    let o = off.rotate(r);
    let at = ship.transform.translation;
    Projectile {
        target: Target::Enemy,
        body: Body {
            transform: Transform {
                translation: Point { x: at.x + o.x, y: at.y + o.y },
                rotation: r,
                scale: ship.transform.scale,
            },
            velocity: Velocity { x: 0, y: SHOT_SPEED }.rotate(r),
            angle_velocity: None,
            size: shot_size,
            movable: Movable(
                MovementOptions { viewport_behavior: MovementViewportBehavior::DespawnOnLeave },
            ),
        },
    }
}

/// Fires a volley while the fire key is held and the cooldown has passed:
/// two shots from muzzles placed symmetrically about the ship's forward
/// axis, flying along its heading. Records the time of the volley.
pub fn player_fire_system(
    ship: &Body,
    fire_held: bool,
    now_ms: u64,
    last_fire_ms: &mut u64,
    shot_size: Extent,
) -> (shots: Vec<Projectile>)
    requires
        ship.placed(),
        shot_size.wf(),
        abs(ship.transform.translation.x as int) <= MAX_EXTENT,
        abs(ship.transform.translation.y as int) <= MAX_EXTENT,
    ensures
        forall|i: int| 0 <= i < shots@.len() ==> (#[trigger] shots@[i]).body.in_field(),
        (fire_held && cooled_down(now_ms, *old(last_fire_ms))) ==> shots@ == seq![
            shot_from(*ship, 1, shot_size),
            shot_from(*ship, -1, shot_size),
        ] && *final(last_fire_ms) == now_ms,
        !(fire_held && cooled_down(now_ms, *old(last_fire_ms))) ==> shots@.len() == 0
            && *final(last_fire_ms) == *old(last_fire_ms),
{
    let mut shots: Vec<Projectile> = Vec::new();
    if !fire_held || now_ms < *last_fire_ms || now_ms - *last_fire_ms < FIRE_COOLDOWN_MS {
        return shots;
    }
    shots.push(make_shot(ship, 1, shot_size));
    shots.push(make_shot(ship, -1, shot_size));
    *last_fire_ms = now_ms;
    shots
}

} // verus!

//! Enemy respawn: a pool of pending slots, a respawn clock, and a random
//! spawn position that never overlaps the player.
use rand::Rng;
use vstd::prelude::*;

use crate::combat::{bodies_collide, collide};
use crate::geometry::{Extent, Heading, Point, ViewportSize, SCALE_ONE};
use crate::movement::{
    AngleVelocity, Body, Movable, MovementOptions, MovementViewportBehavior, Transform, Velocity,
};

verus! {

/// Enemies on the field when a game starts.
pub const INITIAL_ENEMIES_COUNT: u64 = 5;

/// Shortest time between two enemy spawns: 120 ticks at 60 ticks a second.
pub const ENEMY_RESPAWN_DELAY_MS: u64 = 2000;

/// Scale of every sprite, in thousandths.
pub const SPRITE_SCALE: i64 = 500;

/// Positions drawn for one spawn before it is put off to a later tick.
pub const MAX_SPAWN_ATTEMPTS: u32 = 1000;

/// When the last enemy was spawned; `None` until the first spawn.
#[derive(Clone, Copy, Debug, PartialEq, Eq, Structural)]
pub struct LastEnemyRespawn(pub Option<u64>);

/// Relies on rand's `thread_rng().gen_range(lo..hi)`: a value drawn from
/// the half-open range `lo..hi`. The call panics on an empty range.
#[verifier::external_body]
fn random_in(lo: i64, hi: i64) -> (r: i64)
    requires
        lo < hi,
    ensures
        lo <= r < hi,
{
    rand::thread_rng().gen_range(lo..hi)
}

/// Whether a spawn is allowed at `now_ms`: none yet, or the delay has
/// passed since the last one.
pub open spec fn respawn_due(now_ms: u64, last: LastEnemyRespawn) -> bool {
    match last.0 {
        None => true,
        Some(t) => now_ms >= t + ENEMY_RESPAWN_DELAY_MS,
    }
}

/// Half-width of the band enemy centres are drawn from.
pub open spec fn span_w(vp: ViewportSize, enemy: Extent) -> int {
    vp.w / 2 - enemy.w * SPRITE_SCALE / SCALE_ONE as int
}

/// Half-height of the band enemy centres are drawn from.
pub open spec fn span_h(vp: ViewportSize, enemy: Extent) -> int {
    vp.h / 2 - enemy.h * SPRITE_SCALE / SCALE_ONE as int
}

/// A motionless enemy of extent `size` centred on `(x, y)`.
pub open spec fn enemy_body(x: i64, y: i64, size: Extent) -> Body {
    Body {
        transform: Transform {
            translation: Point { x, y },
            rotation: Heading { index: 0 },
            scale: SPRITE_SCALE,
        },
        velocity: Velocity { x: 0, y: 0 },
        angle_velocity: None::<AngleVelocity>,
        size,
        movable: Movable(MovementOptions { viewport_behavior: MovementViewportBehavior::Unbounded }),
    }
}

pub fn enemy_at(x: i64, y: i64, size: Extent) -> (r: Body)
    ensures
        r == enemy_body(x, y, size),
{
    Body {
        transform: Transform {
            translation: Point { x, y },
            rotation: Heading::identity(),
            scale: SPRITE_SCALE,
        },
        velocity: Velocity { x: 0, y: 0 },
        angle_velocity: None,
        size,
        movable: Movable(MovementOptions { viewport_behavior: MovementViewportBehavior::Unbounded }),
    }
}

/// The enemy centred on `(x, y)`, unless it would overlap the player.
pub fn place_enemy(player: &Option<Body>, x: i64, y: i64, size: Extent) -> (r: Option<Body>)
    requires
        player matches Some(p) ==> p.placed(),
        size.wf(),
        enemy_body(x, y, size).transform.translation.in_range(),
    ensures
        r == (match *player {
            Some(p) => if bodies_collide(p, enemy_body(x, y, size)) {
                None
            } else {
                Some(enemy_body(x, y, size))
            },
            None => Some(enemy_body(x, y, size)),
        }),
{
    let e = enemy_at(x, y, size);
    match player {
        Some(p) => {
            if collide(p, &e) {
                None
            } else {
                Some(e)
            }
        },
        None => Some(e),
    }
}

/// Corner `i` of the band enemy centres are drawn from, counted from the
/// lower left: lower right, upper left, upper right.
pub open spec fn band_corner(vp: ViewportSize, size: Extent, i: int) -> (i64, i64) {
    let sw = span_w(vp, size);
    let sh = span_h(vp, size);
    let x = if i == 0 || i == 2 { -sw } else { sw - 1 };
    let y = if i == 0 || i == 1 { -sh } else { sh - 1 };
    (x as i64, y as i64)
}

/// The enemy on corner `i` of the band.
pub open spec fn corner_enemy(vp: ViewportSize, size: Extent, i: int) -> Body {
    enemy_body(band_corner(vp, size, i).0, band_corner(vp, size, i).1, size)
}

/// Whether the enemy on corner `i` would be clear of the player.
pub open spec fn corner_clear(player: Option<Body>, vp: ViewportSize, size: Extent, i: int) -> bool {
    match player {
        Some(p) => !bodies_collide(p, corner_enemy(vp, size, i)),
        None => true,
    }
}

/// Where an enemy goes when no drawn position was clear: the first corner
/// of the band clear of the player, or the first corner when none is.
pub open spec fn fallback_enemy(player: Option<Body>, vp: ViewportSize, size: Extent) -> Body {
    if corner_clear(player, vp, size, 0) {
        corner_enemy(vp, size, 0)
    } else if corner_clear(player, vp, size, 1) {
        corner_enemy(vp, size, 1)
    } else if corner_clear(player, vp, size, 2) {
        corner_enemy(vp, size, 2)
    } else if corner_clear(player, vp, size, 3) {
        corner_enemy(vp, size, 3)
    } else {
        corner_enemy(vp, size, 0)
    }
}

fn fallback_spot(player: &Option<Body>, vp: ViewportSize, size: Extent, sw: i64, sh: i64) -> (r: Body)
    requires
        player matches Some(p) ==> p.placed(),
        vp.wf(),
        size.wf(),
        sw == span_w(vp, size),
        sh == span_h(vp, size),
        0 < sw <= vp.w,
        0 < sh <= vp.h,
    ensures
        r == fallback_enemy(*player, vp, size),
{
    let mut i: usize = 0;
    while i < 4
        invariant
            0 <= i <= 4,
            player matches Some(p) ==> p.placed(),
            size.wf(),
            vp.wf(),
            sw == span_w(vp, size),
            sh == span_h(vp, size),
            0 < sw <= vp.w,
            0 < sh <= vp.h,
            forall|k: int| 0 <= k < i ==> !corner_clear(*player, vp, size, k),
        decreases 4 - i,
    {
        let x = if i == 0 || i == 2 { -sw } else { sw - 1 };
        let y = if i == 0 || i == 1 { -sh } else { sh - 1 };
        assert(band_corner(vp, size, i as int) == (x, y));
        match place_enemy(player, x, y, size) {
            Some(e) => {
                return e;
            },
            None => {},
        }
        i += 1;
    }
    enemy_at(-sw, -sh, size)
}

/// Turns one pending slot into a live enemy when the respawn delay has
/// passed. The enemy's centre is drawn uniformly from the band inside the
/// viewport, and drawn again while its box overlaps the player's. After
/// `MAX_SPAWN_ATTEMPTS` draws the enemy goes to the first corner of the
/// band that is clear of the player. When the band is empty nothing
/// spawns and nothing changes.
pub fn enemy_respawn_system(
    now_ms: u64,
    last: &mut LastEnemyRespawn,
    pending: &mut u64,
    player: &Option<Body>,
    vp: ViewportSize,
    enemy_size: Extent,
) -> (r: Option<Body>)
    requires
        player matches Some(p) ==> p.placed(),
        vp.wf(),
        enemy_size.wf(),
    ensures
        (respawn_due(now_ms, *old(last)) && *old(pending) > 0 && span_w(vp, enemy_size) > 0
            && span_h(vp, enemy_size) > 0) <==> r is Some,
        r is None ==> *final(last) == *old(last) && *final(pending) == *old(pending),
        r matches Some(e) ==> {
            &&& *final(pending) == *old(pending) - 1
            &&& *final(last) == LastEnemyRespawn(Some(now_ms))
            &&& e == enemy_body(e.transform.translation.x, e.transform.translation.y, enemy_size)
            &&& -span_w(vp, enemy_size) <= e.transform.translation.x < span_w(vp, enemy_size)
            &&& -span_h(vp, enemy_size) <= e.transform.translation.y < span_h(vp, enemy_size)
            &&& (player matches Some(p) && bodies_collide(*p, e) ==> e == fallback_enemy(
                *player,
                vp,
                enemy_size,
            ) && forall|i: int| 0 <= i < 4 ==> !corner_clear(*player, vp, enemy_size, i))
        },
{
    let due = match last.0 {
        None => true,
        Some(t) => now_ms >= t && now_ms - t >= ENEMY_RESPAWN_DELAY_MS,
    };
    if !due || *pending == 0 {
        return None;
    }
    let sw = vp.w / 2 - enemy_size.w * SPRITE_SCALE / SCALE_ONE;
    let sh = vp.h / 2 - enemy_size.h * SPRITE_SCALE / SCALE_ONE;
    if sw <= 0 || sh <= 0 {
        return None;
    }
    let mut attempt: u32 = 0;
    let mut placed: Option<Body> = None;
    while attempt < MAX_SPAWN_ATTEMPTS && placed.is_none()
        invariant
            player matches Some(p) ==> p.placed(),
            enemy_size.wf(),
            vp.wf(),
            sw == span_w(vp, enemy_size),
            sh == span_h(vp, enemy_size),
            0 < sw <= vp.w,
            0 < sh <= vp.h,
            placed matches Some(e) ==> {
                &&& e == enemy_body(e.transform.translation.x, e.transform.translation.y, enemy_size)
                &&& -sw <= e.transform.translation.x < sw
                &&& -sh <= e.transform.translation.y < sh
                &&& (player matches Some(p) ==> !bodies_collide(*p, e))
            },
        decreases MAX_SPAWN_ATTEMPTS - attempt,
    {
        let x = random_in(-sw, sw);
        let y = random_in(-sh, sh);
        placed = place_enemy(player, x, y, enemy_size);
        attempt += 1;
    }
    let e = match placed {
        Some(e) => e,
        None => fallback_spot(player, vp, enemy_size, sw, sh),
    };
    *pending = *pending - 1;
    *last = LastEnemyRespawn(Some(now_ms));
    Some(e)
}

/// Respawn clock and pending slots before call `k` of a run of calls made
/// every `d` milliseconds from `t0`, with `slots` pending and no spawn yet,
/// each call spawning whenever it is allowed to.
pub open spec fn cadence_state(slots: nat, t0: int, d: int, k: nat) -> (LastEnemyRespawn, nat)
    decreases k,
{
    if k == 0 {
        (LastEnemyRespawn(None), slots)
    } else {
        let (last, left) = cadence_state(slots, t0, d, (k - 1) as nat);
        let now = (t0 + (k - 1) * d) as u64;
        if respawn_due(now, last) && left > 0 {
            (LastEnemyRespawn(Some(now)), (left - 1) as nat)
        } else {
            (last, left)
        }
    }
}

/// Whether call `k` of such a run spawns an enemy.
pub open spec fn cadence_spawns(slots: nat, t0: int, d: int, k: nat) -> bool {
    let (last, left) = cadence_state(slots, t0, d, k);
    respawn_due((t0 + k * d) as u64, last) && left > 0
}

/// Spawns made by the calls before call `k`.
pub open spec fn spawned_before(slots: nat, n: nat, k: nat) -> nat {
    if k == 0 {
        0
    } else if slots <= (k - 1) / (n as int) + 1 {
        slots
    } else {
        ((k - 1) / (n as int) + 1) as nat
    }
}

/// Whether call `k` opens one of the first `slots` respawn intervals.
pub open spec fn opens_interval(slots: nat, n: nat, k: nat) -> bool {
    k % n == 0 && k / n < slots
}

proof fn lemma_div_step(n: nat, k: nat)
    requires
        n > 0,
        k > 0,
    ensures
        k / n == (k - 1) / (n as int) + 1 <==> k % n == 0,
        k / n == (k - 1) / (n as int) || k / n == (k - 1) / (n as int) + 1,
        k % n == 0 ==> k == n * (k / n),
{
    let c = (k - 1) / (n as int);
    let q = k / n;
    let r = k % n;
    vstd::arithmetic::div_mod::lemma_fundamental_div_mod(k as int, n as int);
    vstd::arithmetic::div_mod::lemma_fundamental_div_mod((k - 1) as int, n as int);
    vstd::arithmetic::div_mod::lemma_mod_bound(k as int, n as int);
    vstd::arithmetic::div_mod::lemma_mod_bound((k - 1) as int, n as int);
    let r1 = (k - 1) % (n as int);
    assert(q == c || q == c + 1) by (nonlinear_arith)
        requires
            k == n * q + r,
            0 <= r < n,
            k - 1 == n * c + r1,
            0 <= r1 < n,
    ;
    assert(q == c + 1 <==> r == 0) by (nonlinear_arith)
        requires
            k == n * q + r,
            0 <= r < n,
            k - 1 == n * c + r1,
            0 <= r1 < n,
    ;
}

proof fn lemma_spawned_before_step(slots: nat, n: nat, k: nat)
    requires
        n > 0,
        k > 0,
    ensures
        opens_interval(slots, n, (k - 1) as nat) ==> spawned_before(slots, n, k) == spawned_before(
            slots,
            n,
            (k - 1) as nat,
        ) + 1 && spawned_before(slots, n, k) - 1 == (k - 1) / (n as int) && (k - 1) == n * ((k
            - 1) / (n as int)),
        !opens_interval(slots, n, (k - 1) as nat) ==> spawned_before(slots, n, k)
            == spawned_before(slots, n, (k - 1) as nat),
{
    let j = (k - 1) as nat;
    if j == 0 {
        assert(j / n == 0 && j % n == 0) by {
            vstd::arithmetic::div_mod::lemma_div_of0(n as int);
            vstd::arithmetic::div_mod::lemma_small_mod(0, n);
        }
    } else {
        lemma_div_step(n, j);
    }
}

proof fn lemma_spawns_from_state(slots: nat, t0: int, d: int, n: nat, k: nat)
    requires
        d > 0,
        n > 0,
        n * d == ENEMY_RESPAWN_DELAY_MS,
        t0 >= 0,
        t0 + k * d <= u64::MAX,
        ({
            let (last, left) = cadence_state(slots, t0, d, k);
            let m = spawned_before(slots, n, k);
            &&& left == slots - m
            &&& m == 0 ==> last == LastEnemyRespawn(None)
            &&& m > 0 ==> last == LastEnemyRespawn(Some((t0 + (m - 1) * n * d) as u64))
        }),
    ensures
        cadence_spawns(slots, t0, d, k) == opens_interval(slots, n, k),
{
    let (last, left) = cadence_state(slots, t0, d, k);
    let m = spawned_before(slots, n, k);
    assert(k * d >= 0) by (nonlinear_arith)
        requires
            d > 0,
    ;
    let now = t0 + k * d;
    if m == 0 {
        if slots > 0 {
            assert(k == 0);
            assert(k / n == 0 && k % n == 0) by {
                vstd::arithmetic::div_mod::lemma_div_of0(n as int);
                vstd::arithmetic::div_mod::lemma_small_mod(0, n);
            }
        }
    } else {
        let c = (k - 1) / (n as int);
        lemma_div_step(n, k);
        assert(c >= 0) by {
            vstd::arithmetic::div_mod::lemma_div_pos_is_pos((k - 1) as int, n as int);
        }
        vstd::arithmetic::div_mod::lemma_fundamental_div_mod((k - 1) as int, n as int);
        vstd::arithmetic::div_mod::lemma_mod_bound((k - 1) as int, n as int);
        let r1 = (k - 1) % (n as int);
        let lt = t0 + (m - 1) * n * d;
        assert(0 <= (m - 1) * n * d <= k * d) by (nonlinear_arith)
            requires
                1 <= m <= c + 1,
                k - 1 == n * c + r1,
                0 <= r1 < n,
                d > 0,
                n > 0,
        ;
        assert(now >= lt + ENEMY_RESPAWN_DELAY_MS <==> k >= m * n) by (nonlinear_arith)
            requires
                now == t0 + k * d,
                lt == t0 + (m - 1) * n * d,
                n * d == ENEMY_RESPAWN_DELAY_MS,
                d > 0,
        ;
        if m < slots {
            assert(m == c + 1);
            assert(k >= m * n <==> k % n == 0) by (nonlinear_arith)
                requires
                    m == c + 1,
                    k - 1 == n * c + r1,
                    0 <= r1 < n,
                    k % n == 0 <==> k / n == c + 1,
                    k / n == c || k / n == c + 1,
                    k % n == 0 ==> k == n * (k / n),
            ;
        } else {
            assert(m == slots);
        }
    }
}

proof fn lemma_cadence_state(slots: nat, t0: int, d: int, n: nat, k: nat)
    requires
        d > 0,
        n > 0,
        n * d == ENEMY_RESPAWN_DELAY_MS,
        t0 >= 0,
        t0 + k * d <= u64::MAX,
    ensures
        ({
            let (last, left) = cadence_state(slots, t0, d, k);
            let m = spawned_before(slots, n, k);
            &&& left == slots - m
            &&& m == 0 ==> last == LastEnemyRespawn(None)
            &&& m > 0 ==> last == LastEnemyRespawn(Some((t0 + (m - 1) * n * d) as u64))
        }),
        cadence_spawns(slots, t0, d, k) == opens_interval(slots, n, k),
    decreases k,
{
    if k > 0 {
        let j = (k - 1) as nat;
        assert(t0 + j * d <= t0 + k * d) by (nonlinear_arith)
            requires
                d > 0,
                j == k - 1,
        ;
        assert(j * d >= 0) by (nonlinear_arith)
            requires
                d > 0,
        ;
        lemma_cadence_state(slots, t0, d, n, j);
        lemma_spawned_before_step(slots, n, k);
        if opens_interval(slots, n, j) {
            let c = j / n;
            assert((spawned_before(slots, n, k) - 1) * n * d == j * d) by (nonlinear_arith)
                requires
                    spawned_before(slots, n, k) - 1 == c,
                    j == n * c,
            ;
        }
    }
    lemma_spawns_from_state(slots, t0, d, n, k);
}

/// Respawn cadence: with the respawn delay lasting `n` calls made every
/// `d` milliseconds, and `slots` enemies pending, call `k` spawns an enemy
/// exactly when it opens one of the first `slots` intervals: one enemy per
/// interval elapsed, up to the number of pending slots. The model is that
/// of `enemy_respawn_system`, which spawns exactly when a spawn is due and
/// a slot is pending (the band being non-empty), whether or not the player
/// is on the field.
pub proof fn lemma_respawn_cadence(slots: nat, t0: int, d: int, n: nat, k: nat)
    requires
        d > 0,
        n > 0,
        n * d == ENEMY_RESPAWN_DELAY_MS,
        t0 >= 0,
        t0 + k * d <= u64::MAX,
    ensures
        cadence_spawns(slots, t0, d, k) == (k % n == 0 && k / n < slots),
{
    lemma_cadence_state(slots, t0, d, n, k);
    assert(opens_interval(slots, n, k) == (k % n == 0 && k / n < slots));
}

} // verus!

use arcade_shooter::animation::{AnimationTimer, Explosion, RepeatingTimer, EXPLOSION_FRAMES};
use arcade_shooter::app_state::AppState;
use arcade_shooter::combat::{
    enemy_get_hit_system, enemy_hit_player_on_collision_system, player_fire_system,
    player_on_hit_system, ExplosionInvoke, Projectile, Target, DEATH_RETURN_DELAY_MS,
};
use arcade_shooter::delayed::{DelayTimer, DelayedCommand, StateSetCommand};
use arcade_shooter::geometry::{Extent, Heading, Point, ViewportSize};
use arcade_shooter::movement::{
    Body, Movable, MovementOptions, MovementViewportBehavior, Transform, Velocity,
};
use arcade_shooter::spawn::{
    enemy_at, enemy_respawn_system, place_enemy, LastEnemyRespawn, ENEMY_RESPAWN_DELAY_MS,
};

const PX: i64 = 1000;

fn body(x: i64, y: i64, size: i64, scale: i64, behavior: MovementViewportBehavior) -> Body {
    Body {
        transform: Transform {
            translation: Point { x, y },
            rotation: Heading::identity(),
            scale,
        },
        velocity: Velocity { x: 0, y: 0 },
        angle_velocity: None,
        size: Extent { w: size, h: size },
        movable: Movable(MovementOptions { viewport_behavior: behavior }),
    }
}

fn ship() -> Body {
    body(0, -250 * PX, 200 * PX, 500, MovementViewportBehavior::Contain)
}

fn shot(x: i64, y: i64, target: Target) -> Projectile {
    Projectile {
        target,
        body: body(x, y, 100 * PX, 500, MovementViewportBehavior::DespawnOnLeave),
    }
}

fn enemy(x: i64, y: i64) -> Body {
    body(x, y, 200 * PX, 500, MovementViewportBehavior::Unbounded)
}

#[test]
fn fire_cooldown_blocks_then_allows_a_volley() {
    let p = ship();
    let shot_size = Extent { w: 100 * PX, h: 100 * PX };
    let mut last_fire: u64 = 0;
    let early = player_fire_system(&p, true, 100, &mut last_fire, shot_size);
    assert!(early.is_empty());
    assert_eq!(last_fire, 0);
    let volley = player_fire_system(&p, true, 300, &mut last_fire, shot_size);
    assert_eq!(volley.len(), 2);
    assert_eq!(last_fire, 300);
    let (a, b) = (volley[0].body.transform.translation, volley[1].body.transform.translation);
    let centre = p.transform.translation;
    // Symmetric about the forward (y) axis through the ship's centre.
    assert_eq!(a.x - centre.x, -(b.x - centre.x));
    assert_eq!(a.y, b.y);
    // Half of the 100 px box less 5 px, and a quarter of it forward.
    assert_eq!(a.x - centre.x, 45 * PX);
    assert_eq!(a.y - centre.y, 25 * PX);
    for s in volley.iter() {
        assert_eq!(s.target, Target::Enemy);
        assert_eq!(s.body.velocity, Velocity { x: 0, y: 1500 });
        assert_eq!(s.body.movable.0.viewport_behavior, MovementViewportBehavior::DespawnOnLeave);
        assert_eq!(s.body.size, shot_size);
    }
    let again = player_fire_system(&p, true, 400, &mut last_fire, shot_size);
    assert!(again.is_empty());
    let idle = player_fire_system(&p, false, 1000, &mut last_fire, shot_size);
    assert!(idle.is_empty());
    assert_eq!(last_fire, 300);
}

#[test]
fn volley_turns_with_the_ship() {
    let mut p = ship();
    p.transform.rotation = Heading { index: 19 };
    let mut last_fire: u64 = 0;
    let volley = player_fire_system(&p, true, 1000, &mut last_fire, Extent { w: 100 * PX, h: 100 * PX });
    let c = p.transform.translation;
    assert_eq!(volley[0].body.transform.translation, Point { x: c.x - 25 * PX, y: c.y + 45 * PX });
    assert_eq!(volley[1].body.transform.translation, Point { x: c.x - 25 * PX, y: c.y - 45 * PX });
    assert_eq!(volley[0].body.velocity, Velocity { x: -1500, y: 0 });
    assert_eq!(volley[0].body.transform.rotation, Heading { index: 19 });
}

#[test]
fn one_projectile_destroys_at_most_one_enemy() {
    // One shot overlapping two enemies.
    let shots = vec![shot(0, 0, Target::Enemy)];
    let enemies = vec![enemy(20 * PX, 0), enemy(-20 * PX, 0)];
    let h = enemy_get_hit_system(&shots, &enemies);
    assert_eq!(h, vec![Some(0), None]);
}

#[test]
fn each_enemy_takes_the_first_free_shot() {
    let shots = vec![
        shot(0, 0, Target::Enemy),
        shot(10 * PX, 0, Target::Enemy),
        shot(400 * PX, 0, Target::Enemy),
    ];
    let enemies = vec![enemy(5 * PX, 0), enemy(8 * PX, 0), enemy(-5 * PX, 0), enemy(400 * PX, 200 * PX)];
    let h = enemy_get_hit_system(&shots, &enemies);
    assert_eq!(h, vec![Some(0), Some(1), None, None]);
}

#[test]
fn shots_aimed_at_the_player_spare_enemies() {
    let shots = vec![shot(0, 0, Target::Player)];
    let enemies = vec![enemy(0, 0)];
    assert_eq!(enemy_get_hit_system(&shots, &enemies), vec![None]);
    assert_eq!(enemy_get_hit_system(&Vec::new(), &enemies), vec![None]);
    assert!(enemy_get_hit_system(&shots, &Vec::new()).is_empty());
}

#[test]
fn player_takes_a_hit_per_overlapping_enemy() {
    let p = Some(ship());
    let enemies = vec![enemy(0, -250 * PX), enemy(50 * PX, -200 * PX), enemy(0, 200 * PX)];
    assert_eq!(enemy_hit_player_on_collision_system(&p, &enemies), 2);
    assert_eq!(enemy_hit_player_on_collision_system(&None, &enemies), 0);
}

#[test]
fn player_dies_once_hit_even_twice() {
    let mut hits: u64 = 2;
    let mut player = Some(ship());
    let death = player_on_hit_system(&mut hits, &mut player).expect("the player dies");
    assert_eq!(hits, 0);
    assert!(player.is_none());
    assert_eq!(death.explosion, ExplosionInvoke { translation: Point { x: 0, y: -250 * PX } });
    assert_eq!(
        death.return_to_menu,
        DelayedCommand::Replace(StateSetCommand {
            target: AppState::MainMenu,
            delay: DelayTimer { duration_ms: DEATH_RETURN_DELAY_MS, elapsed_ms: 0 },
        })
    );
    let mut none_left: u64 = 1;
    let mut nobody: Option<Body> = None;
    assert!(player_on_hit_system(&mut none_left, &mut nobody).is_none());
    assert_eq!(none_left, 1);
    let mut unhurt: u64 = 0;
    let mut alive = Some(ship());
    assert!(player_on_hit_system(&mut unhurt, &mut alive).is_none());
    assert!(alive.is_some());
}

#[test]
fn enemy_spawn_never_overlaps_the_player() {
    let vp = ViewportSize { w: 1000 * PX, h: 600 * PX };
    let player = Some(body(0, 0, 200 * PX, 1000, MovementViewportBehavior::Contain));
    let size = Extent { w: 200 * PX, h: 200 * PX };
    let span_w = vp.w / 2 - 100 * PX;
    let span_h = vp.h / 2 - 100 * PX;
    let mut seen = Vec::new();
    for trial in 0..10_000u64 {
        let mut last = LastEnemyRespawn(None);
        let mut pending: u64 = 1;
        let e = enemy_respawn_system(trial, &mut last, &mut pending, &player, vp, size)
            .expect("a free spot is found");
        assert_eq!(pending, 0);
        assert_eq!(last, LastEnemyRespawn(Some(trial)));
        let p = e.transform.translation;
        assert!(-span_w <= p.x && p.x < span_w);
        assert!(-span_h <= p.y && p.y < span_h);
        // Player box 200 px, enemy box 100 px: centres must be over 150 px apart on an axis.
        assert!(p.x.abs() > 150 * PX || p.y.abs() > 150 * PX);
        seen.push(p);
    }
    assert!(seen.iter().any(|p| *p != seen[0]));
}

#[test]
fn respawn_waits_for_its_delay_and_a_slot() {
    let vp = ViewportSize { w: 1000 * PX, h: 600 * PX };
    let size = Extent { w: 200 * PX, h: 200 * PX };
    let mut last = LastEnemyRespawn(None);
    let mut pending: u64 = 2;
    assert!(enemy_respawn_system(0, &mut last, &mut pending, &None, vp, size).is_some());
    assert!(enemy_respawn_system(ENEMY_RESPAWN_DELAY_MS - 1, &mut last, &mut pending, &None, vp, size).is_none());
    assert_eq!(pending, 1);
    assert_eq!(last, LastEnemyRespawn(Some(0)));
    assert!(enemy_respawn_system(ENEMY_RESPAWN_DELAY_MS, &mut last, &mut pending, &None, vp, size).is_some());
    assert_eq!(pending, 0);
    assert!(enemy_respawn_system(10 * ENEMY_RESPAWN_DELAY_MS, &mut last, &mut pending, &None, vp, size).is_none());
    assert_eq!(last, LastEnemyRespawn(Some(ENEMY_RESPAWN_DELAY_MS)));
}

#[test]
fn respawn_cadence_one_enemy_per_interval() {
    // A tick of 16 ms and a delay of 2000 ms: one spawn every 125 calls.
    let vp = ViewportSize { w: 1000 * PX, h: 600 * PX };
    let size = Extent { w: 200 * PX, h: 200 * PX };
    let mut last = LastEnemyRespawn(None);
    let mut pending: u64 = 5;
    let mut spawned_at = Vec::new();
    for k in 0..1000u64 {
        if enemy_respawn_system(k * 16, &mut last, &mut pending, &None, vp, size).is_some() {
            spawned_at.push(k);
        }
    }
    assert_eq!(spawned_at, vec![0, 125, 250, 375, 500]);
    assert_eq!(pending, 0);
}

#[test]
fn no_spawn_when_the_band_is_empty() {
    let vp = ViewportSize { w: 150 * PX, h: 600 * PX };
    let size = Extent { w: 200 * PX, h: 200 * PX };
    let mut last = LastEnemyRespawn(None);
    let mut pending: u64 = 1;
    assert!(enemy_respawn_system(0, &mut last, &mut pending, &None, vp, size).is_none());
    assert_eq!(pending, 1);
    assert_eq!(last, LastEnemyRespawn(None));
}

#[test]
fn placement_rejects_a_spot_on_the_player() {
    let player = Some(body(0, 0, 200 * PX, 1000, MovementViewportBehavior::Contain));
    let size = Extent { w: 200 * PX, h: 200 * PX };
    assert!(place_enemy(&player, 0, 0, size).is_none());
    assert!(place_enemy(&player, 150 * PX, 0, size).is_none());
    assert!(place_enemy(&player, 151 * PX, 0, size).is_some());
    assert_eq!(place_enemy(&None, 0, 0, size), Some(enemy_at(0, 0, size)));
}

#[test]
fn explosion_plays_once_then_ends() {
    let mut x = Explosion::explosion_spawn_system(ExplosionInvoke { translation: Point { x: 3, y: 4 } });
    assert_eq!(x.frame, 0);
    assert_eq!(x.frame_count, EXPLOSION_FRAMES);
    assert!(!x.animate_sprite(10));
    assert_eq!(x.frame, 0);
    assert!(!x.animate_sprite(23));
    assert_eq!(x.frame, 1);
    assert_eq!(x.animation.timer.elapsed_ms, 0);
    let mut ended = false;
    for _ in 0..13 {
        ended = x.animate_sprite(33);
        assert!(!ended);
    }
    assert_eq!(x.frame, 14);
    ended = ended || x.animate_sprite(40);
    assert!(ended);
    assert_eq!(x.frame, 15);
    assert_eq!(x.animation.timer.elapsed_ms, 7);
}

#[test]
fn looping_animation_wraps_around() {
    let mut x = Explosion {
        translation: Point { x: 0, y: 0 },
        frame: 2,
        frame_count: 3,
        animation: AnimationTimer { timer: RepeatingTimer { period_ms: 10, elapsed_ms: 5 }, play_once: false },
    };
    assert!(!x.animate_sprite(5));
    assert_eq!(x.frame, 0);
    assert!(!x.animate_sprite(1000));
    assert_eq!(x.frame, 1);
}

#[test]
fn a_crowded_band_falls_back_to_its_first_corner() {
    let vp = ViewportSize { w: 1000 * PX, h: 600 * PX };
    // A player box of 2000 px covers every spot of the band.
    let player = Some(body(0, 0, 2000 * PX, 1000, MovementViewportBehavior::Contain));
    let size = Extent { w: 200 * PX, h: 200 * PX };
    let mut last = LastEnemyRespawn(Some(0));
    let mut pending: u64 = 3;
    let e = enemy_respawn_system(ENEMY_RESPAWN_DELAY_MS, &mut last, &mut pending, &player, vp, size)
        .expect("a due spawn always happens");
    assert_eq!(e, enemy_at(-400 * PX, -200 * PX, size));
    assert_eq!(pending, 2);
    assert_eq!(last, LastEnemyRespawn(Some(ENEMY_RESPAWN_DELAY_MS)));
}

#[test]
fn a_due_spawn_happens_beside_the_player() {
    let vp = ViewportSize { w: 1000 * PX, h: 600 * PX };
    // The player leaves only a thin strip on the right of the band clear.
    let player = Some(body(-200 * PX, 0, 1000 * PX, 1000, MovementViewportBehavior::Contain));
    let size = Extent { w: 200 * PX, h: 200 * PX };
    for trial in 0..200u64 {
        let mut last = LastEnemyRespawn(None);
        let mut pending: u64 = 1;
        let e = enemy_respawn_system(trial, &mut last, &mut pending, &player, vp, size)
            .expect("a due spawn always happens");
        assert!(e.transform.translation.x > 350 * PX);
        assert_eq!(pending, 0);
    }
}

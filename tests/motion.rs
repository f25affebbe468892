use arcade_shooter::combat::{collide, FIELD_BOUND};
use arcade_shooter::geometry::{
    div_toward_zero, is_contained_in_viewport, is_outside_viewport, Extent, Heading, Point,
    ViewportSize,
};
use arcade_shooter::movement::{
    AngleVelocity, Body, Movable, MovementOptions, MovementViewportBehavior, Transform, Velocity,
};
use rand::Rng;

const PX: i64 = 1000;

fn viewport() -> ViewportSize {
    ViewportSize { w: 1000 * PX, h: 600 * PX }
}

fn body(x: i64, y: i64, size: i64, scale: i64, behavior: MovementViewportBehavior) -> Body {
    Body {
        transform: Transform {
            translation: Point { x, y },
            rotation: Heading::identity(),
            scale,
        },
        velocity: Velocity { x: 0, y: 0 },
        angle_velocity: None,
        size: Extent { w: size, h: size },
        movable: Movable(MovementOptions { viewport_behavior: behavior }),
    }
}

#[test]
fn boundary_clamp_reverts_the_step() {
    let vp = viewport();
    let start_x = vp.w / 2 - PX;
    let mut ship = body(start_x, 0, 200 * PX, 500, MovementViewportBehavior::Contain);
    ship.velocity = Velocity { x: 1000, y: 0 };
    let despawn = ship.advance(vp);
    assert!(!despawn);
    assert_eq!(ship.transform.translation.x, start_x);
    assert_eq!(ship.transform.translation.y, 0);
}

#[test]
fn contained_ship_moves_by_one_tick_of_base_speed() {
    let vp = viewport();
    let mut ship = body(0, 0, 200 * PX, 500, MovementViewportBehavior::Contain);
    ship.velocity = Velocity { x: 1000, y: -1000 };
    assert!(!ship.advance(vp));
    // 250 px/s over 1/60 s is 4.1666 px, rounded toward zero.
    assert_eq!(ship.transform.translation, Point { x: 4166, y: -4166 });
}

#[test]
fn contain_keeps_random_steering_in_bounds() {
    let vp = viewport();
    let size = 200 * PX;
    let limit = (2 * vp.w - size) / 4;
    let limit_y = (2 * vp.h - size) / 4;
    let mut ship = body(0, 0, size, 500, MovementViewportBehavior::Contain);
    ship.angle_velocity = Some(AngleVelocity(0));
    let mut rng = rand::thread_rng();
    for _ in 0..20_000 {
        ship.velocity = Velocity { x: rng.gen_range(-3000..=3000), y: rng.gen_range(-3000..=3000) };
        ship.angle_velocity = Some(AngleVelocity(rng.gen_range(-1..=1)));
        assert!(!ship.advance(vp));
        assert!(ship.transform.translation.x.abs() <= limit);
        assert!(ship.transform.translation.y.abs() <= limit_y);
    }
}

#[test]
fn shot_past_the_edge_is_despawned() {
    let vp = viewport();
    let size = 100 * PX;
    // (1000 + 50) / 2 = 525 px is the edge for this shot.
    let mut shot = body(524 * PX, 0, size, 500, MovementViewportBehavior::DespawnOnLeave);
    shot.velocity = Velocity { x: 1500, y: 0 };
    assert!(shot.advance(vp));
    let mut inside = body(500 * PX, 0, size, 500, MovementViewportBehavior::DespawnOnLeave);
    inside.velocity = Velocity { x: 1500, y: 0 };
    assert!(!inside.advance(vp));
    assert_eq!(inside.transform.translation.x, 500 * PX + 6250);
}

#[test]
fn unbounded_body_ignores_the_viewport() {
    let vp = viewport();
    let mut b = body(10_000 * PX, 0, 100 * PX, 500, MovementViewportBehavior::Unbounded);
    b.velocity = Velocity { x: 1000, y: 0 };
    assert!(!b.advance(vp));
    assert_eq!(b.transform.translation.x, 10_000 * PX + 4166);
    assert!(FIELD_BOUND > 0);
}

#[test]
fn turning_body_moves_along_its_new_heading() {
    let vp = viewport();
    let mut b = body(0, 0, 100 * PX, 500, MovementViewportBehavior::Unbounded);
    b.transform.rotation = Heading { index: 18 };
    b.velocity = Velocity { x: 1000, y: 0 };
    b.angle_velocity = Some(AngleVelocity(1));
    assert!(!b.advance(vp));
    assert_eq!(b.transform.rotation, Heading { index: 19 });
    // A quarter turn: the x velocity now points along y.
    assert_eq!(b.transform.translation, Point { x: 0, y: 4166 });
}

#[test]
fn rotate_quarter_and_half_turns() {
    let v = Velocity { x: 1000, y: 0 };
    assert_eq!(v.rotate(Heading { index: 0 }), Velocity { x: 1000, y: 0 });
    assert_eq!(v.rotate(Heading { index: 19 }), Velocity { x: 0, y: 1000 });
    assert_eq!(v.rotate(Heading { index: 38 }), Velocity { x: -1000, y: 0 });
    assert_eq!(v.rotate(Heading { index: 57 }), Velocity { x: 0, y: -1000 });
    let w = Velocity { x: 0, y: 1500 };
    assert_eq!(w.rotate(Heading { index: 19 }), Velocity { x: -1500, y: 0 });
}

#[test]
fn heading_turns_wrap_both_ways() {
    let h = Heading { index: 0 };
    assert_eq!(h.turned(-1), Heading { index: 75 });
    assert_eq!(h.turned(76), Heading { index: 0 });
    assert_eq!(Heading { index: 75 }.turned(1), Heading { index: 0 });
    assert_eq!(Heading { index: 10 }.turned(-87), Heading { index: 75 });
    assert_eq!(Heading { index: 19 }.sin(), 1_000_000);
    assert_eq!(Heading { index: 19 }.cos(), 0);
    assert_eq!(Heading { index: 38 }.cos(), -1_000_000);
}

#[test]
fn division_rounds_toward_zero() {
    assert_eq!(div_toward_zero(7, 2), 3);
    assert_eq!(div_toward_zero(-7, 2), -3);
    assert_eq!(div_toward_zero(-6, 2), -3);
    assert_eq!(div_toward_zero(0, 5), 0);
}

#[test]
fn viewport_tests_at_their_edges() {
    let vp = viewport();
    let size = Extent { w: 200 * PX, h: 200 * PX };
    assert!(is_contained_in_viewport(Point { x: 450 * PX, y: 250 * PX }, size, vp));
    assert!(!is_contained_in_viewport(Point { x: 450 * PX + 1, y: 0 }, size, vp));
    assert!(!is_outside_viewport(Point { x: 550 * PX, y: 0 }, size, vp));
    assert!(is_outside_viewport(Point { x: 550 * PX + 1, y: 0 }, size, vp));
    assert!(is_outside_viewport(Point { x: 0, y: -(350 * PX + 1) }, size, vp));
}

#[test]
fn touching_boxes_collide() {
    let a = body(0, 0, 200 * PX, 500, MovementViewportBehavior::Unbounded);
    // Boxes of 100 px: centres 100 px apart touch.
    let b = body(100 * PX, 0, 200 * PX, 500, MovementViewportBehavior::Unbounded);
    let c = body(100 * PX + 1, 0, 200 * PX, 500, MovementViewportBehavior::Unbounded);
    let d = body(50 * PX, 100 * PX, 200 * PX, 500, MovementViewportBehavior::Unbounded);
    assert!(collide(&a, &b));
    assert!(!collide(&a, &c));
    assert!(collide(&a, &d));
    let rotated = Body {
        transform: Transform { rotation: Heading { index: 9 }, ..c.transform },
        ..c
    };
    assert!(!collide(&a, &rotated));
}

//! The simulation core of a small arcade shooter: a ship that moves, turns
//! and fires, enemies that respawn, and menus layered over play by a stack
//! of application states.
//!
//! Everything is in integers. Lengths are thousandths of a pixel, with the
//! origin at the centre of the viewport; times are milliseconds; headings
//! are steps of a divided full turn. A host reads input and the clock,
//! calls the tick functions, and draws what the core holds.
//!
//! - `geometry`: points, extents, headings and the box tests.
//! - `movement`: the fixed-step integrator and its viewport policies.
//! - `combat`: collisions, hit resolution, fire, player death.
//! - `spawn`: enemy respawn and its random, non-overlapping placement.
//! - `animation`: explosions played frame by frame.
//! - `app_state`, `delayed`: the state stack and delayed state commands.
//! - `input`, `buttons`: key bindings, steering, pause and menu buttons.
//! - `game`: a session with all of the above, tick by tick.
pub mod animation;
pub mod app_state;
pub mod buttons;
pub mod combat;
pub mod delayed;
pub mod game;
pub mod geometry;
pub mod input;
pub mod movement;
pub mod spawn;

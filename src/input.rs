//! Logical player actions bound to raw key codes, the steering they give
//! the ship, and the pause toggle.
use vstd::prelude::*;

use crate::app_state::{AppState, StateStack};
use crate::movement::{AngleVelocity, Body, Velocity, SPEED_ONE};

verus! {

#[derive(Clone, Copy, Debug, PartialEq, Eq, Structural)]
pub enum PlayerKey {
    Up,
    Down,
    Left,
    Right,
    RotateCw,
    RotateCcw,
    Fire,
}

/// The raw key codes bound to each action; an action is held while any of
/// its keys is.
pub struct PlayerKeyBinding {
    pub up: Vec<u32>,
    pub down: Vec<u32>,
    pub left: Vec<u32>,
    pub right: Vec<u32>,
    pub rotate_cw: Vec<u32>,
    pub rotate_ccw: Vec<u32>,
    pub fire: Vec<u32>,
}

/// The raw key codes that toggle the pause menu.
pub struct PauseMenuKeyBindings(pub Vec<u32>);

/// Whether any key of `bound` is among the `held` ones.
pub open spec fn any_held(bound: Seq<u32>, held: Seq<u32>) -> bool {
    exists|i: int| 0 <= i < bound.len() && held.contains(#[trigger] bound[i])
}

fn holds(held: &Vec<u32>, key: u32) -> (r: bool)
    ensures
        r == held@.contains(key),
{
    let mut i: usize = 0;
    while i < held.len()
        invariant
            0 <= i <= held@.len(),
            forall|k: int| 0 <= k < i ==> held@[k] != key,
        decreases held@.len() - i,
    {
        if held[i] == key {
            return true;
        }
        i += 1;
    }
    false
}

fn any_held_exec(bound: &Vec<u32>, held: &Vec<u32>) -> (r: bool)
    ensures
        r == any_held(bound@, held@),
{
    let mut i: usize = 0;
    while i < bound.len()
        invariant
            0 <= i <= bound@.len(),
            forall|k: int| 0 <= k < i ==> !held@.contains(#[trigger] bound@[k]),
        decreases bound@.len() - i,
    {
        if holds(held, bound[i]) {
            return true;
        }
        i += 1;
    }
    false
}

/// `keys` with `k` added when `on`.
pub open spec fn push_if(keys: Seq<PlayerKey>, on: bool, k: PlayerKey) -> Seq<PlayerKey> {
    if on {
        keys.push(k)
    } else {
        keys
    }
}

impl PlayerKeyBinding {
    /// The actions held, in the order up, down, left, right, clockwise,
    /// counterclockwise, fire.
    pub open spec fn pressed_spec(&self, held: Seq<u32>) -> Seq<PlayerKey> {
        let s0 = push_if(seq![], any_held(self.up@, held), PlayerKey::Up);
        let s1 = push_if(s0, any_held(self.down@, held), PlayerKey::Down);
        let s2 = push_if(s1, any_held(self.left@, held), PlayerKey::Left);
        let s3 = push_if(s2, any_held(self.right@, held), PlayerKey::Right);
        let s4 = push_if(s3, any_held(self.rotate_cw@, held), PlayerKey::RotateCw);
        let s5 = push_if(s4, any_held(self.rotate_ccw@, held), PlayerKey::RotateCcw);
        push_if(s5, any_held(self.fire@, held), PlayerKey::Fire)
    }

    pub fn pressed(&self, held: &Vec<u32>) -> (r: Vec<PlayerKey>)
        ensures
            r@ == self.pressed_spec(held@),
    {
        let mut result: Vec<PlayerKey> = Vec::new();
        if any_held_exec(&self.up, held) {
            result.push(PlayerKey::Up);
        }
        if any_held_exec(&self.down, held) {
            result.push(PlayerKey::Down);
        }
        if any_held_exec(&self.left, held) {
            result.push(PlayerKey::Left);
        }
        if any_held_exec(&self.right, held) {
            result.push(PlayerKey::Right);
        }
        if any_held_exec(&self.rotate_cw, held) {
            result.push(PlayerKey::RotateCw);
        }
        if any_held_exec(&self.rotate_ccw, held) {
            result.push(PlayerKey::RotateCcw);
        }
        if any_held_exec(&self.fire, held) {
            result.push(PlayerKey::Fire);
        }
        result
    }
}

pub(crate) fn has_key(keys: &Vec<PlayerKey>, k: PlayerKey) -> (r: bool)
    ensures
        r == keys@.contains(k),
{
    let mut i: usize = 0;
    while i < keys.len()
        invariant
            0 <= i <= keys@.len(),
            forall|j: int| 0 <= j < i ==> keys@[j] != k,
        decreases keys@.len() - i,
    {
        if keys[i] == k {
            return true;
        }
        i += 1;
    }
    false
}

/// Direction along one axis from a pair of opposing keys: -1 when only the
/// first is held, 1 when only the second is, 0 otherwise.
pub open spec fn axis(neg: bool, pos: bool) -> int {
    if neg && !pos {
        -1
    } else if pos && !neg {
        1
    } else {
        0
    }
}

fn axis_exec(neg: bool, pos: bool) -> (r: i64)
    ensures
        r == axis(neg, pos),
{
    if neg && !pos {
        -1
    } else if pos && !neg {
        1
    } else {
        0
    }
}

/// The ship steered by the held actions: unit speed on each axis whose
/// opposing keys disagree, and a turn of one heading step a tick,
/// clockwise or counterclockwise.
pub open spec fn steer_spec(ship: Body, pressed: Seq<PlayerKey>) -> Body {
    Body {
        velocity: Velocity {
            x: (axis(pressed.contains(PlayerKey::Left), pressed.contains(PlayerKey::Right))
                * SPEED_ONE) as i64,
            y: (axis(pressed.contains(PlayerKey::Down), pressed.contains(PlayerKey::Up))
                * SPEED_ONE) as i64,
        },
        angle_velocity: Some(
            AngleVelocity(
                axis(pressed.contains(PlayerKey::RotateCw), pressed.contains(PlayerKey::RotateCcw))
                    as i64,
            ),
        ),
        ..ship
    }
}

/// Steers the ship from the held actions.
pub fn player_keyboard_event_system(pressed: &Vec<PlayerKey>, ship: &mut Body)
    ensures
        *final(ship) == steer_spec(*old(ship), pressed@),
{
    let x = axis_exec(has_key(pressed, PlayerKey::Left), has_key(pressed, PlayerKey::Right));
    let y = axis_exec(has_key(pressed, PlayerKey::Down), has_key(pressed, PlayerKey::Up));
    let turn = axis_exec(
        has_key(pressed, PlayerKey::RotateCw),
        has_key(pressed, PlayerKey::RotateCcw),
    );
    ship.velocity.x = x * SPEED_ONE;
    ship.velocity.y = y * SPEED_ONE;
    ship.angle_velocity = Some(AngleVelocity(turn));
}

/// The stack after one pause toggle: a game in play is paused, a paused
/// game resumes, any other state is left alone.
pub open spec fn toggled(s: Seq<AppState>) -> Seq<AppState> {
    if s.last() == AppState::Playing {
        s.push(AppState::Paused)
    } else if s.last() == AppState::Paused && s.len() >= 2 {
        s.drop_last()
    } else {
        s
    }
}

/// The stack after one toggle per bound key that is held, in binding order.
pub open spec fn toggled_by(s: Seq<AppState>, bound: Seq<u32>, held: Seq<u32>) -> Seq<AppState>
    decreases bound.len(),
{
    if bound.len() == 0 {
        s
    } else {
        let before = toggled_by(s, bound.drop_last(), held);
        if held.contains(bound.last()) {
            toggled(before)
        } else {
            before
        }
    }
}

/// The keys of `bound` that are held, in binding order.
pub open spec fn held_among(bound: Seq<u32>, held: Seq<u32>) -> Seq<u32>
    decreases bound.len(),
{
    if bound.len() == 0 {
        seq![]
    } else {
        let before = held_among(bound.drop_last(), held);
        if held.contains(bound.last()) {
            before.push(bound.last())
        } else {
            before
        }
    }
}

/// Pauses or resumes the game for each held pause key, and returns the
/// keys it consumed so that the host can release them.
pub fn playing_active_keyboard_events_system(
    bindings: &PauseMenuKeyBindings,
    held: &Vec<u32>,
    stack: &mut StateStack,
) -> (consumed: Vec<u32>)
    requires
        old(stack).wf(),
        old(stack)@.len() + bindings.0@.len() < usize::MAX,
    ensures
        final(stack)@ == toggled_by(old(stack)@, bindings.0@, held@),
        final(stack).wf(),
        consumed@ == held_among(bindings.0@, held@),
{
    let mut consumed: Vec<u32> = Vec::new();
    let ghost start = stack@;
    let mut i: usize = 0;
    while i < bindings.0.len()
        invariant
            0 <= i <= bindings.0@.len(),
            start.len() + bindings.0@.len() < usize::MAX,
            stack@ == toggled_by(start, bindings.0@.take(i as int), held@),
            stack.wf(),
            stack@.len() <= start.len() + i,
            consumed@ == held_among(bindings.0@.take(i as int), held@),
        decreases bindings.0@.len() - i,
    {
        let key = bindings.0[i];
        proof {
            assert(bindings.0@.take(i + 1).drop_last() =~= bindings.0@.take(i as int));
        }
        if holds(held, key) {
            let current = stack.current();
            match current {
                AppState::Playing => stack.push(AppState::Paused),
                AppState::Paused => {
                    let _ = stack.pop();
                },
                _ => {},
            }
            consumed.push(key);
        }
        i += 1;
    }
    proof {
        assert(bindings.0@.take(bindings.0@.len() as int) =~= bindings.0@);
    }
    consumed
}

} // verus!

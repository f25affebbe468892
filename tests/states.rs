use arcade_shooter::app_state::{AppState, StateError, StateOp, StateStack};
use arcade_shooter::buttons::{button_click_system, ButtonInteraction, StateActionButton, CLICK_DELAY_MS};
use arcade_shooter::delayed::{DelayTimer, DelayedCommand, DelayedCommands, StatePopCommand};
use arcade_shooter::game::{Game, SpriteSizes};
use arcade_shooter::geometry::{Extent, Point, ViewportSize};
use arcade_shooter::input::{
    player_keyboard_event_system, playing_active_keyboard_events_system, PauseMenuKeyBindings,
    PlayerKey, PlayerKeyBinding,
};
use arcade_shooter::movement::{AngleVelocity, Velocity};

const PX: i64 = 1000;

#[test]
fn push_then_pop_restores_the_stack() {
    let mut s = StateStack::new();
    s.push(AppState::Playing);
    assert_eq!(s.depth(), 2);
    s.push(AppState::Paused);
    assert_eq!(s.current(), AppState::Paused);
    assert_eq!(s.pop(), Ok(AppState::Paused));
    assert_eq!(s.current(), AppState::Playing);
    assert_eq!(s.depth(), 2);
    assert_eq!(s.pop(), Ok(AppState::Playing));
    assert_eq!(s.current(), AppState::MainMenu);
}

#[test]
fn set_collapses_any_depth() {
    let mut s = StateStack::new();
    s.push(AppState::Playing);
    s.push(AppState::Paused);
    s.push(AppState::Settings);
    s.set(AppState::MainMenu);
    assert_eq!(s.depth(), 1);
    assert_eq!(s.current(), AppState::MainMenu);
    assert!(s.contains(AppState::MainMenu));
    assert!(!s.contains(AppState::Playing));
}

#[test]
fn pop_on_the_last_state_is_refused() {
    let mut s = StateStack::new();
    assert_eq!(s.pop(), Err(StateError::StackEmpty));
    assert_eq!(s.depth(), 1);
    assert_eq!(s.apply(StateOp::Pop), Err(StateError::StackEmpty));
    assert_eq!(s.apply(StateOp::Push(AppState::Settings)), Ok(()));
    assert_eq!(s.current(), AppState::Settings);
}

#[test]
fn due_commands_apply_pops_then_replacements_then_pushes() {
    let mut s = StateStack::new();
    s.push(AppState::Playing);
    s.push(AppState::Paused);
    let mut q = DelayedCommands::new();
    q.insert(DelayedCommand::push_after(AppState::Settings, 30));
    q.insert(DelayedCommand::replace_after(AppState::MainMenu, 30));
    q.insert(DelayedCommand::pop_after(30));
    q.insert(DelayedCommand::pop_after(100));
    let fired = q.run_due(&mut s, 29);
    assert!(fired.is_empty());
    assert_eq!(q.len(), 4);
    let fired = q.run_due(&mut s, 1);
    assert_eq!(
        fired,
        vec![StateOp::Pop, StateOp::Replace(AppState::MainMenu), StateOp::Push(AppState::Settings)]
    );
    assert_eq!(s.depth(), 2);
    assert_eq!(s.current(), AppState::Settings);
    assert_eq!(q.len(), 1);
    let fired = q.run_due(&mut s, 69);
    assert!(fired.is_empty());
    let fired = q.run_due(&mut s, 1);
    assert_eq!(fired, vec![StateOp::Pop]);
    assert_eq!(s.current(), AppState::MainMenu);
    assert_eq!(q.len(), 0);
}

#[test]
fn zero_delay_fires_on_the_next_tick() {
    let mut s = StateStack::new();
    let mut q = DelayedCommands::new();
    q.insert(DelayedCommand::replace_after(AppState::Playing, 0));
    assert_eq!(q.run_due(&mut s, 0), vec![StateOp::Replace(AppState::Playing)]);
    assert_eq!(s.current(), AppState::Playing);
    assert!(DelayTimer::new(5).is_due(5));
    assert!(!DelayTimer::new(5).is_due(4));
}

#[test]
fn pause_keys_toggle_play() {
    let bindings = PauseMenuKeyBindings(vec![27, 80]);
    let mut s = StateStack::new();
    s.push(AppState::Playing);
    let consumed = playing_active_keyboard_events_system(&bindings, &vec![80, 5], &mut s);
    assert_eq!(consumed, vec![80]);
    assert_eq!(s.current(), AppState::Paused);
    let consumed = playing_active_keyboard_events_system(&bindings, &vec![27], &mut s);
    assert_eq!(consumed, vec![27]);
    assert_eq!(s.current(), AppState::Playing);
    assert_eq!(s.depth(), 2);
    // Both keys at once pause and resume again.
    playing_active_keyboard_events_system(&bindings, &vec![27, 80], &mut s);
    assert_eq!(s.current(), AppState::Playing);
    let mut menu = StateStack::new();
    let consumed = playing_active_keyboard_events_system(&bindings, &vec![27], &mut menu);
    assert_eq!(consumed, vec![27]);
    assert_eq!(menu.current(), AppState::MainMenu);
}

#[test]
fn held_keys_map_to_actions_in_order() {
    let binding = PlayerKeyBinding {
        up: vec![1, 2],
        down: vec![3],
        left: vec![4],
        right: vec![5],
        rotate_cw: vec![6],
        rotate_ccw: vec![7],
        fire: vec![8],
    };
    assert_eq!(binding.pressed(&vec![8, 2, 4]), vec![PlayerKey::Up, PlayerKey::Left, PlayerKey::Fire]);
    assert!(binding.pressed(&vec![]).is_empty());
    assert!(binding.pressed(&vec![99]).is_empty());
}

#[test]
fn steering_follows_opposing_keys() {
    let mut game = Game::new(
        ViewportSize { w: 1000 * PX, h: 600 * PX },
        SpriteSizes {
            player: Extent { w: 200 * PX, h: 200 * PX },
            player_fire: Extent { w: 100 * PX, h: 100 * PX },
            enemy: Extent { w: 200 * PX, h: 200 * PX },
        },
    );
    game.queue(DelayedCommand::replace_after(AppState::Playing, 0));
    game.advance_states(16);
    let mut ship = game.player.expect("a session started");
    player_keyboard_event_system(&vec![PlayerKey::Left, PlayerKey::Up, PlayerKey::RotateCw], &mut ship);
    assert_eq!(ship.velocity, Velocity { x: -1000, y: 1000 });
    assert_eq!(ship.angle_velocity, Some(AngleVelocity(-1)));
    player_keyboard_event_system(
        &vec![PlayerKey::Left, PlayerKey::Right, PlayerKey::Down, PlayerKey::RotateCcw],
        &mut ship,
    );
    assert_eq!(ship.velocity, Velocity { x: 0, y: -1000 });
    assert_eq!(ship.angle_velocity, Some(AngleVelocity(1)));
    assert_eq!(ship.transform.translation, Point { x: 0, y: -250 * PX });
}

#[test]
fn buttons_fire_on_release_after_a_press() {
    let mut clicked = false;
    let a = button_click_system(ButtonInteraction::Hovered, StateActionButton::StartGame, &mut clicked);
    assert!(a.commands.is_empty() && !a.exit && !clicked);
    let a = button_click_system(ButtonInteraction::Pressed, StateActionButton::StartGame, &mut clicked);
    assert!(a.commands.is_empty() && clicked);
    let a = button_click_system(ButtonInteraction::Hovered, StateActionButton::StartGame, &mut clicked);
    assert_eq!(a.commands, vec![DelayedCommand::replace_after(AppState::Playing, CLICK_DELAY_MS)]);
    assert!(!clicked);

    let mut clicked = true;
    let a = button_click_system(ButtonInteraction::Idle, StateActionButton::MainMenu, &mut clicked);
    assert_eq!(
        a.commands,
        vec![
            DelayedCommand::Pop(StatePopCommand { delay: DelayTimer { duration_ms: 30, elapsed_ms: 0 } }),
            DelayedCommand::replace_after(AppState::MainMenu, 30),
        ]
    );
    let mut clicked = true;
    let a = button_click_system(ButtonInteraction::Idle, StateActionButton::Settings, &mut clicked);
    assert_eq!(a.commands, vec![DelayedCommand::push_after(AppState::Settings, 30)]);
    let mut clicked = true;
    let a = button_click_system(ButtonInteraction::Idle, StateActionButton::Return, &mut clicked);
    assert_eq!(a.commands, vec![DelayedCommand::pop_after(30)]);
    let mut clicked = true;
    let a = button_click_system(ButtonInteraction::Hovered, StateActionButton::Exit, &mut clicked);
    assert!(a.commands.is_empty() && a.exit);
}

#[test]
fn consumed_pause_keys_follow_binding_order() {
    let bindings = PauseMenuKeyBindings(vec![27, 80, 81]);
    let mut s = StateStack::new();
    s.push(AppState::Playing);
    let consumed = playing_active_keyboard_events_system(&bindings, &vec![81, 80, 27], &mut s);
    assert_eq!(consumed, vec![27, 80, 81]);
    // Three toggles: pause, resume, pause.
    assert_eq!(s.current(), AppState::Paused);
}

#[test]
fn a_pop_due_on_a_single_state_is_flagged() {
    let mut q = DelayedCommands::new();
    let s = StateStack::new();
    q.insert(DelayedCommand::pop_after(30));
    assert!(q.pops_keep_a_state(&s, 29));
    assert!(!q.pops_keep_a_state(&s, 30));
    let mut q2 = DelayedCommands::new();
    q2.insert(DelayedCommand::push_after(AppState::Settings, 0));
    q2.insert(DelayedCommand::pop_after(0));
    // Pops go first, so the push does not save it.
    assert!(!q2.pops_keep_a_state(&s, 0));
    let mut deep = StateStack::new();
    deep.push(AppState::Playing);
    assert!(q2.pops_keep_a_state(&deep, 0));
}

#[test]
fn game_flags_a_return_that_would_empty_the_stack() {
    let mut game = Game::new(
        ViewportSize { w: 1000 * PX, h: 600 * PX },
        SpriteSizes {
            player: Extent { w: 200 * PX, h: 200 * PX },
            player_fire: Extent { w: 100 * PX, h: 100 * PX },
            enemy: Extent { w: 200 * PX, h: 200 * PX },
        },
    );
    game.queue(DelayedCommand::pop_after(30));
    assert!(game.due_commands_apply(10));
    assert!(!game.due_commands_apply(30));
}

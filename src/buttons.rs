//! Menu buttons: a click is a press followed by a release, and a click on
//! a state button queues the state commands it stands for.
use vstd::prelude::*;

use crate::app_state::AppState;
use crate::delayed::{DelayTimer, DelayedCommand, StatePopCommand, StatePushCommand, StateSetCommand};

verus! {

/// Delay between a click and the state change it asks for.
pub const CLICK_DELAY_MS: u64 = 30;

#[derive(Clone, Copy, Debug, PartialEq, Eq, Structural)]
pub enum StateActionButton {
    StartGame,
    MainMenu,
    Settings,
    Return,
    Exit,
}

/// The pointer's relation to a button, as the host reports it.
#[derive(Clone, Copy, Debug, PartialEq, Eq, Structural)]
pub enum ButtonInteraction {
    Pressed,
    Hovered,
    Idle,
}

/// What a finished click asks for.
pub struct ButtonAction {
    pub commands: Vec<DelayedCommand>,
    pub exit: bool,
}

pub open spec fn click_timer() -> DelayTimer {
    DelayTimer { duration_ms: CLICK_DELAY_MS, elapsed_ms: 0 }
}

/// The commands a click on `button` queues.
pub open spec fn commands_of(button: StateActionButton) -> Seq<DelayedCommand> {
    match button {
        StateActionButton::StartGame => seq![
            DelayedCommand::Replace(StateSetCommand { target: AppState::Playing, delay: click_timer() }),
        ],
        StateActionButton::MainMenu => seq![
            DelayedCommand::Pop(StatePopCommand { delay: click_timer() }),
            DelayedCommand::Replace(StateSetCommand { target: AppState::MainMenu, delay: click_timer() }),
        ],
        StateActionButton::Settings => seq![
            DelayedCommand::Push(StatePushCommand { target: AppState::Settings, delay: click_timer() }),
        ],
        StateActionButton::Return => seq![DelayedCommand::Pop(StatePopCommand { delay: click_timer() })],
        StateActionButton::Exit => seq![],
    }
}

/// Handles a change of interaction on `button`. A press arms the button;
/// any other change fires an armed button and disarms it.
pub fn button_click_system(
    interaction: ButtonInteraction,
    button: StateActionButton,
    clicked: &mut bool,
) -> (r: ButtonAction)
    ensures
        interaction == ButtonInteraction::Pressed ==> *final(clicked) && r.commands@.len() == 0
            && !r.exit,
        interaction != ButtonInteraction::Pressed ==> !*final(clicked),
        interaction != ButtonInteraction::Pressed && *old(clicked) ==> r.commands@ == commands_of(
            button,
        ) && r.exit == (button == StateActionButton::Exit),
        interaction != ButtonInteraction::Pressed && !*old(clicked) ==> r.commands@.len() == 0
            && !r.exit,
{
    let mut commands: Vec<DelayedCommand> = Vec::new();
    let mut exit = false;
    match interaction {
        ButtonInteraction::Pressed => {
            *clicked = true;
        },
        _ => {
            if *clicked {
                match button {
                    StateActionButton::StartGame => {
                        commands.push(DelayedCommand::replace_after(AppState::Playing, CLICK_DELAY_MS));
                    },
                    StateActionButton::MainMenu => {
                        commands.push(DelayedCommand::pop_after(CLICK_DELAY_MS));
                        commands.push(DelayedCommand::replace_after(AppState::MainMenu, CLICK_DELAY_MS));
                    },
                    StateActionButton::Exit => {
                        exit = true;
                    },
                    StateActionButton::Settings => {
                        commands.push(DelayedCommand::push_after(AppState::Settings, CLICK_DELAY_MS));
                    },
                    StateActionButton::Return => {
                        commands.push(DelayedCommand::pop_after(CLICK_DELAY_MS));
                    },
                }
            }
            *clicked = false;
        },
    }
    ButtonAction { commands, exit }
}

} // verus!

//! Choosing a round, and moving between the screens around it.

use vstd::prelude::*;

use crate::components::GameType;
use crate::game::RoundOutcome;

verus! {

/// The buttons that start a round, each with its score multiplier, and the
/// one that quits. A round's wall type is the index of its button.
#[derive(Clone, Copy, Debug, PartialEq, Eq, Structural)]
pub enum MenuButton {
    WithoutWall(u32),
    ExteriorWall(u32),
    VerticalWall(u32),
    HorizontalWall(u32),
    VerticalAndHorizontalWall(u32),
    Quit,
}

pub open spec fn button_index(button: MenuButton) -> usize {
    match button {
        MenuButton::WithoutWall(_) => 0,
        MenuButton::ExteriorWall(_) => 1,
        MenuButton::VerticalWall(_) => 2,
        MenuButton::HorizontalWall(_) => 3,
        MenuButton::VerticalAndHorizontalWall(_) => 4,
        MenuButton::Quit => 5,
    }
}

impl MenuButton {
    /// The position of the variant in the declaration.
    pub fn enum_index(&self) -> (r: usize)
        ensures
            r == button_index(*self),
    {
        match self {
            MenuButton::WithoutWall(_) => 0,
            MenuButton::ExteriorWall(_) => 1,
            MenuButton::VerticalWall(_) => 2,
            MenuButton::HorizontalWall(_) => 3,
            MenuButton::VerticalAndHorizontalWall(_) => 4,
            MenuButton::Quit => 5,
        }
    }

    /// The round that the button starts; `None` for the one that quits.
    pub fn game_type(&self) -> (r: Option<GameType>)
        ensures
            r == match *self {
                MenuButton::WithoutWall(m) | MenuButton::ExteriorWall(m) | MenuButton::VerticalWall(m)
                | MenuButton::HorizontalWall(m) | MenuButton::VerticalAndHorizontalWall(m) => Some(
                    GameType { wall_type: button_index(*self), multiplier: m },
                ),
                MenuButton::Quit => None,
            },
    {
        let wall_type = self.enum_index();
        match *self {
            MenuButton::WithoutWall(m) | MenuButton::ExteriorWall(m) | MenuButton::VerticalWall(m)
            | MenuButton::HorizontalWall(m) | MenuButton::VerticalAndHorizontalWall(m) => Some(
                GameType { wall_type, multiplier: m },
            ),
            MenuButton::Quit => None,
        }
    }
}

/// The screen the application shows.
#[derive(Clone, Copy, Debug, PartialEq, Eq, Structural)]
pub enum AppState {
    MainMenu,
    SubMenu,
    InGame,
    Pause,
    /// The round is over; `true` when it was won.
    GameOver(bool),
}

pub open spec fn controlled(state: AppState, escape: bool, space: bool) -> AppState {
    match state {
        AppState::InGame => if escape {
            AppState::MainMenu
        } else if space {
            AppState::Pause
        } else {
            state
        },
        AppState::Pause => if space {
            AppState::InGame
        } else {
            state
        },
        _ => state,
    }
}

/// The screen after the escape and space keys of a frame: during a round,
/// escape goes back to the main menu and space pauses; space resumes a paused
/// round.
pub fn back_to_main_menu_controls(state: AppState, escape: bool, space: bool) -> (r: AppState)
    ensures
        r == controlled(state, escape, space),
{
    match state {
        AppState::InGame => {
            if escape {
                AppState::MainMenu
            } else if space {
                AppState::Pause
            } else {
                state
            }
        },
        AppState::Pause => {
            if space {
                AppState::InGame
            } else {
                state
            }
        },
        _ => state,
    }
}

/// The screen that follows the end of a round.
pub fn game_over_state(outcome: RoundOutcome) -> (r: AppState)
    ensures
        r == AppState::GameOver(outcome == RoundOutcome::Win),
{
    AppState::GameOver(outcome == RoundOutcome::Win)
}

} // verus!

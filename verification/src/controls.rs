//! Keyboard control policy: which pressed key asks for which action.
//!
//! The event loop polls the terminal for a key (an I/O concern kept
//! outside this library), reduces it to a [`KeyInput`], and obeys the
//! decision made here.

use vstd::prelude::*;

verus! {

/// What the event loop should do after handling one key poll.
#[derive(Debug, Clone, Copy, PartialEq, Eq, Structural)]
pub enum ControlAction {
    Quit,
    Continue,
}

/// A pressed key, reduced to the cases the player reacts to.
#[derive(Debug, Clone, Copy, PartialEq, Eq, Structural)]
pub enum KeyInput {
    Char(char),
    Esc,
    Left,
    Right,
    Up,
    Down,
    Other,
}

/// The operation a key asks of the playback transport.
#[derive(Debug, Clone, Copy, PartialEq, Eq, Structural)]
pub enum PlayerCommand {
    TogglePlayPause,
    SeekBackward,
    SeekForward,
    VolumeUp,
    VolumeDown,
    Restart,
    Idle,
}

/// The control table: `q`, `Q` and Escape quit; space toggles playback;
/// the arrow keys seek and change volume; `r` and `R` restart; anything
/// else is ignored.
pub open spec fn key_response(key: KeyInput) -> (ControlAction, PlayerCommand) {
    match key {
        KeyInput::Char(c) => if c == 'q' || c == 'Q' {
            (ControlAction::Quit, PlayerCommand::Idle)
        } else if c == ' ' {
            (ControlAction::Continue, PlayerCommand::TogglePlayPause)
        } else if c == 'r' || c == 'R' {
            (ControlAction::Continue, PlayerCommand::Restart)
        } else {
            (ControlAction::Continue, PlayerCommand::Idle)
        },
        KeyInput::Esc => (ControlAction::Quit, PlayerCommand::Idle),
        KeyInput::Left => (ControlAction::Continue, PlayerCommand::SeekBackward),
        KeyInput::Right => (ControlAction::Continue, PlayerCommand::SeekForward),
        KeyInput::Up => (ControlAction::Continue, PlayerCommand::VolumeUp),
        KeyInput::Down => (ControlAction::Continue, PlayerCommand::VolumeDown),
        KeyInput::Other => (ControlAction::Continue, PlayerCommand::Idle),
    }
}

/// Decide what one pressed key means, exactly as [`key_response`] says.
pub fn interpret_key(key: KeyInput) -> (r: (ControlAction, PlayerCommand))
    ensures
        r == key_response(key),
{
    match key {
        KeyInput::Char(c) => if c == 'q' || c == 'Q' {
            (ControlAction::Quit, PlayerCommand::Idle)
        } else if c == ' ' {
            (ControlAction::Continue, PlayerCommand::TogglePlayPause)
        } else if c == 'r' || c == 'R' {
            (ControlAction::Continue, PlayerCommand::Restart)
        } else {
            (ControlAction::Continue, PlayerCommand::Idle)
        },
        KeyInput::Esc => (ControlAction::Quit, PlayerCommand::Idle),
        KeyInput::Left => (ControlAction::Continue, PlayerCommand::SeekBackward),
        KeyInput::Right => (ControlAction::Continue, PlayerCommand::SeekForward),
        KeyInput::Up => (ControlAction::Continue, PlayerCommand::VolumeUp),
        KeyInput::Down => (ControlAction::Continue, PlayerCommand::VolumeDown),
        KeyInput::Other => (ControlAction::Continue, PlayerCommand::Idle),
    }
}

} // verus!

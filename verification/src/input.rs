//! Mapping of key presses to the three loop-control commands.

use vstd::prelude::*;

verus! {

/// What a recognized key press asks the loop to do.
#[derive(Clone, Copy, Debug, PartialEq, Eq)]
pub enum Command {
    /// Leave the loop and end the program.
    Quit,
    /// Flip between running and paused.
    TogglePause,
    /// Reseed both buffers at the current terminal dimensions.
    Reseed,
}

/// The command a key event maps to: `q` quits, `p` toggles pause, `r`
/// reseeds, on press events only. Releases and every other key do nothing.
pub open spec fn spec_command_for(key: char, is_press: bool) -> Option<Command> {
    if !is_press {
        None
    } else if key == 'q' {
        Some(Command::Quit)
    } else if key == 'p' {
        Some(Command::TogglePause)
    } else if key == 'r' {
        Some(Command::Reseed)
    } else {
        None
    }
}

/// Decide what a key event asks for; `is_press` is false for key releases
/// (and repeats), which are ignored whatever the key.
pub fn command_for(key: char, is_press: bool) -> (r: Option<Command>)
    ensures
        r == spec_command_for(key, is_press),
{
    if !is_press {
        None
    } else if key == 'q' {
        Some(Command::Quit)
    } else if key == 'p' {
        Some(Command::TogglePause)
    } else if key == 'r' {
        Some(Command::Reseed)
    } else {
        None
    }
}

} // verus!

//! What the window manager asks of the display server and of its other
//! collaborators.

use vstd::prelude::*;
use crate::config::Color;
use crate::layouts::Placement;
use crate::modeline::Modeline;
use crate::window::Window;

verus! {

/// One request to the outside world. The state machine hands them out in
/// the order in which they are to be carried out; none awaits an answer.
#[derive(Debug, Clone, Copy, PartialEq, Eq, Structural)]
pub enum Command {
    /// Move and resize the window to the rectangle, and give it the
    /// standard border.
    Place(Placement),
    /// Move the window, keeping its size.
    Move { window: Window, x: i32, y: i32 },
    /// Resize the window, keeping its position.
    Resize { window: Window, width: u32, height: u32 },
    /// Ask to be told when the pointer enters the window or its focus
    /// changes.
    SelectInput { window: Window },
    /// Set the width of the window's border.
    SetBorderWidth { window: Window, width: u32 },
    /// Show the window, on top of the others.
    MapRaised { window: Window },
    /// Mark the window as one to keep above the others.
    KeepAbove { window: Window },
    /// Paint the window's border.
    SetBorderColor { window: Window, color: Color },
    /// Give the window the input focus.
    SetInputFocus { window: Window },
    /// Put the window on top of the others.
    Raise { window: Window },
    /// Send all pending requests to the display server now.
    Flush,
    /// Move the pointer to this point of the root area.
    WarpPointer { x: i32, y: i32 },
    /// Ask the window, politely, to close.
    SendDelete { window: Window },
    /// Launch the terminal emulator.
    SpawnTerminal,
    /// Launch the program launcher.
    SpawnLauncher,
    /// Launch the start-up program with this number.
    SpawnAutoStart(usize),
    /// Create a status bar, and make its window known to the state.
    CreateModeline(Modeline),
    /// Redraw the status bars.
    UpdateModeline,
    /// Start the timer that asks for a redraw of the status bars at regular
    /// intervals.
    SpawnModelineTimer,
    /// Ask to be told of what happens to the windows of the root area.
    SelectRootInput,
    /// Release every key grabbed on the root area.
    UngrabKeys,
    /// Reserve a key, held with exactly these modifiers, on the root area.
    GrabKey { keysym: u32, modifiers: u32 },
}

/// The commands that set each window to its rectangle, in order.
pub open spec fn place_all(placements: Seq<Placement>) -> Seq<Command> {
    Seq::new(placements.len(), |i: int| Command::Place(placements[i]))
}

/// The commands that set each window to its rectangle, in order.
pub fn place_commands(placements: &Vec<Placement>) -> (commands: Vec<Command>)
    ensures
        commands@ == place_all(placements@),
{
    let mut commands: Vec<Command> = Vec::new();
    let mut i: usize = 0;
    while i < placements.len()
        invariant
            i <= placements@.len(),
            commands@ == place_all(placements@).take(i as int),
        decreases placements@.len() - i,
    {
        commands.push(Command::Place(placements[i]));
        i += 1;
    }
    commands
}

} // verus!

//! The status bar shown at the top of every monitor.

use vstd::prelude::*;
use crate::command::Command;
use crate::config::MODELINE_HEIGHT;
use crate::layouts::extent;
use crate::monitors::Monitor;
use crate::window::Window;
use crate::wm::{KoanWM, State};

verus! {

/// What a part of the status bar shows.
pub enum ModuleType {
    /// The local date and time.
    Clock,
    /// The title of the focused window.
    WindowTitle,
    /// A text of the user's own.
    Custom(String),
}

/// One part of the status bar.
pub struct Module {
    pub kind: ModuleType,
}

/// The local date and time, as year, month, day, hour, minute and second.
/// Calls `chrono::Local::now` and writes what it returns with
/// `DateTime::format`. The text depends on the clock and the time zone of
/// the machine, so nothing is claimed of it.
#[verifier::external_body]
fn local_time_text() -> (text: String) {
    chrono::Local::now().format("%Y-%m-%d %H:%M:%S").to_string()
}

impl Module {
    /// The text the part shows, given the title of the focused window: the
    /// title itself, the user's text, or the time of day.
    pub fn get_text(&self, focused_title: &str) -> (text: String)
        ensures
            self.kind is WindowTitle ==> text@ == focused_title@,
            self.kind matches ModuleType::Custom(custom) ==> text@ == custom@,
    {
        match &self.kind {
            ModuleType::Clock => local_time_text(),
            ModuleType::WindowTitle => focused_title.to_string(),
            ModuleType::Custom(custom) => custom.clone(),
        }
    }
}

/// The parts of the status bar, from left to right: the title of the
/// focused window, then the clock.
pub fn modules() -> (parts: Vec<Module>)
    ensures
        parts@.len() == 2,
        parts@[0].kind is WindowTitle,
        parts@[1].kind is Clock,
{
    let mut parts: Vec<Module> = Vec::new();
    parts.push(Module { kind: ModuleType::WindowTitle });
    parts.push(Module { kind: ModuleType::Clock });
    parts
}

/// The title the status bar shows: the name of the focused window, or a
/// stand-in where it has none; the window manager's own name where no
/// window is focused.
pub open spec fn title_spec(focused: Option<Window>, name: Option<Seq<char>>) -> Seq<char> {
    match focused {
        None => "KoanWM"@,
        Some(_) => match name {
            Some(title) => title,
            None => "No Name"@,
        },
    }
}

/// The title the status bar shows, given the focused window and the name
/// the display server has for it.
pub fn window_title(focused: Option<Window>, name: Option<String>) -> (title: String)
    ensures
        title@ == title_spec(
            focused,
            match name {
                Some(n) => Some(n@),
                None => None,
            },
        ),
{
    match focused {
        None => "KoanWM".to_string(),
        Some(_) => match name {
            Some(title) => title,
            None => "No Name".to_string(),
        },
    }
}

/// Where the first text of the status bar starts.
pub const TEXT_START: i32 = 10;

/// The width of one character of the status bar.
pub const CHAR_WIDTH: i32 = 8;

/// The space between two texts of the status bar.
pub const TEXT_GAP: i32 = 20;

/// Where the next text starts, after one of `length` characters that
/// starts at `x`: past the text and the gap, or at the largest position
/// there is where that would be further.
pub open spec fn advance(x: int, length: int) -> int {
    if x + CHAR_WIDTH * length + TEXT_GAP > i32::MAX {
        i32::MAX as int
    } else {
        x + CHAR_WIDTH * length + TEXT_GAP
    }
}

/// Where text `k` of the status bar starts, given the lengths of the texts
/// before it.
pub open spec fn text_offset(lengths: Seq<usize>, k: int) -> int
    decreases k,
{
    if k <= 0 {
        TEXT_START as int
    } else {
        advance(text_offset(lengths, k - 1), lengths[k - 1] as int)
    }
}

/// Where each text of the status bar starts, from their lengths.
pub fn text_offsets(lengths: &Vec<usize>) -> (offsets: Vec<i32>)
    ensures
        offsets@.len() == lengths@.len(),
        forall|k: int|
            0 <= k < offsets@.len() ==> #[trigger] offsets@[k] == text_offset(lengths@, k),
{
    let mut offsets: Vec<i32> = Vec::new();
    let mut x_offset: i32 = TEXT_START;
    let mut k: usize = 0;
    while k < lengths.len()
        invariant
            k <= lengths@.len(),
            offsets@.len() == k,
            TEXT_START <= x_offset,
            x_offset == text_offset(lengths@, k as int),
            forall|j: int| 0 <= j < k ==> #[trigger] offsets@[j] == text_offset(lengths@, j),
        decreases lengths@.len() - k,
    {
        offsets.push(x_offset);
        let length = lengths[k];
        x_offset = if length > 0x1000_0000 {
            i32::MAX
        } else {
            let next = x_offset as i64 + CHAR_WIDTH as i64 * length as i64 + TEXT_GAP as i64;
            if next > i32::MAX as i64 {
                i32::MAX
            } else {
                next as i32
            }
        };
        k += 1;
    }
    offsets
}

/// The rectangle of one status bar.
#[derive(Debug, Clone, Copy, PartialEq, Eq, Structural)]
pub struct Modeline {
    pub x: i32,
    pub y: i32,
    pub width: u32,
    pub height: u32,
}

/// The status bar of a monitor: along its upper edge, as wide as the
/// monitor.
pub open spec fn bar_of(mon: Monitor) -> Modeline {
    Modeline { x: mon.x, y: mon.y, width: extent(mon.width as int) as u32, height: MODELINE_HEIGHT }
}

impl State {
    /// The state after the status bars have been asked for anew: none is
    /// known yet.
    pub open spec fn create_modeline(self) -> State {
        State { modelines: Seq::empty(), ..self }
    }

    /// What is asked of the outside world to get the status bars: one bar
    /// for each monitor, in order.
    pub open spec fn create_modeline_commands(self) -> Seq<Command> {
        Seq::new(self.monitors.len(), |i: int| Command::CreateModeline(bar_of(self.monitors[i])))
    }

    /// The state after the window of a status bar has been made known.
    pub open spec fn register_modeline(self, window: Window) -> State {
        State { modelines: self.modelines.push(window), ..self }
    }
}

impl KoanWM {
    /// Asks for a status bar on every monitor, and forgets the bars there
    /// were. The window of each bar is to be made known with
    /// `register_modeline` once it exists.
    pub fn create_modeline(&mut self) -> (commands: Vec<Command>)
        requires
            old(self).wf(),
        ensures
            final(self).wf(),
            final(self)@ == old(self)@.create_modeline(),
            commands@ == old(self)@.create_modeline_commands(),
    {
        self.modelines.clear();
        let mut commands: Vec<Command> = Vec::new();
        let mut i: usize = 0;
        while i < self.monitors.len()
            invariant
                self.wf(),
                self@ == old(self)@.create_modeline(),
                i <= self@.monitors.len(),
                commands@ == old(self)@.create_modeline_commands().take(i as int),
            decreases self@.monitors.len() - i,
        {
            let mon = self.monitors[i];
            let width = if mon.width > 0 {
                mon.width as u32
            } else {
                0
            };
            commands.push(
                Command::CreateModeline(
                    Modeline { x: mon.x, y: mon.y, width, height: MODELINE_HEIGHT },
                ),
            );
            i += 1;
        }
        commands
    }

    /// Makes the window of a status bar known.
    pub fn register_modeline(&mut self, window: Window)
        requires
            old(self).wf(),
        ensures
            final(self).wf(),
            final(self)@ == old(self)@.register_modeline(window),
    {
        self.modelines.push(window);
    }

    /// Whether `window` is the window of a status bar.
    pub fn is_modeline(&self, window: Window) -> (found: bool)
        ensures
            found == self@.modelines.contains(window),
    {
        let mut i: usize = 0;
        while i < self.modelines.len()
            invariant
                i <= self@.modelines.len(),
                forall|j: int| 0 <= j < i ==> self@.modelines[j] != window,
            decreases self@.modelines.len() - i,
        {
            if self.modelines[i] == window {
                return true;
            }
            i += 1;
        }
        false
    }
}

} // verus!

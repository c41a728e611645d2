//! Static configuration: colours, key bindings, sizes and the programs the
//! window manager launches.

use vstd::prelude::*;

verus! {

/// The colours the window manager paints with.
#[derive(Clone, Copy, PartialEq, Eq, Structural, Debug)]
pub enum Color {
    Primary,
    Secondary,
    Error,
}

impl Color {
    /// The CSS notation of the colour, as a sequence of characters.
    pub open spec fn hex_spec(self) -> Seq<char> {
        match self {
            Color::Primary => "#00ff00"@,
            Color::Secondary => "#888888"@,
            Color::Error => "#ff5555"@,
        }
    }

    /// The CSS notation of the colour.
    pub fn hex(self) -> (s: &'static str)
        ensures
            s@ == self.hex_spec(),
    {
        match self {
            Color::Primary => "#00ff00",
            Color::Secondary => "#888888",
            Color::Error => "#ff5555",
        }
    }
}

/// What a key binding can ask of the window manager.
#[derive(Clone, Copy, PartialEq, Eq, Structural, Debug)]
pub enum Action {
    SwitchLayout,
    OpenLauncher,
    OpenTerminal,
    QuitWM,
    FocusNext,
    FocusPrev,
    MonitorNext,
    MonitorPrev,
    SwapWindowNext,
    SwapWindowPrev,
    IcreaseSize,
    DecreaseSize,
    MoveWindowToNextMonitor,
    MoveWindowToPrevMonitor,
    CloseWindow,
    ToggleFloat,
}

/// One entry of the key binding table: a key symbol, the exact set of
/// modifiers held with it, and the action it triggers.
#[derive(Clone, Copy, PartialEq, Eq, Structural, Debug)]
pub struct KeyBinding {
    pub keysym: u32,
    pub modifiers: u32,
    pub action: Action,
}

// Key symbols of the X protocol.
pub const XK_TAB: u32 = 0xff09;

pub const XK_RETURN: u32 = 0xff0d;

pub const XK_COMMA: u32 = 0x2c;

pub const XK_PERIOD: u32 = 0x2e;

pub const XK_C: u32 = 0x63;

pub const XK_D: u32 = 0x64;

pub const XK_J: u32 = 0x6a;

pub const XK_K: u32 = 0x6b;

pub const XK_Q: u32 = 0x71;

// Modifier bits of the X protocol.
pub const SHIFT_MASK: u32 = 0x01;

pub const CONTROL_MASK: u32 = 0x04;

pub const MOD1_MASK: u32 = 0x08;

pub const MOD4_MASK: u32 = 0x40;

/// The modifier every binding of the built-in table is held with.
pub const MOD_KEY: u32 = 0x08;

/// `MOD_KEY` together with Shift.
pub const MOD_SHIFT: u32 = 0x09;

/// `MOD_KEY` together with Control.
pub const MOD_CONTROL: u32 = 0x0c;

/// Shift, Control and the two meta modifiers: the bits of a key event's
/// state that take part in matching a binding. Lock bits are left out.
pub const RELEVANT_MODIFIERS: u32 = 0x4d;

/// Seconds between two redraws of the status bar.
pub const MODELINE_UPDATE_TIME: u64 = 5;

/// Height in pixels of the status bar.
pub const MODELINE_HEIGHT: u32 = 10;

/// Width in pixels of the border drawn around every managed window.
pub const BORDER_WIDTH: u32 = 1;

/// Width in pixels of the gap left around tiled windows.
pub const GAPS: u32 = 4;

/// Whether a window takes the focus when the pointer enters it.
pub const CURSOR_ENTER_FOCUS: bool = true;

/// The built-in key binding table.
pub open spec fn key_bindings_spec() -> Seq<KeyBinding> {
    seq![
        KeyBinding { keysym: XK_TAB, modifiers: MOD_CONTROL, action: Action::SwitchLayout },
        KeyBinding { keysym: XK_RETURN, modifiers: MOD_KEY, action: Action::OpenTerminal },
        KeyBinding { keysym: XK_D, modifiers: MOD_KEY, action: Action::OpenLauncher },
        KeyBinding { keysym: XK_J, modifiers: MOD_KEY, action: Action::FocusNext },
        KeyBinding { keysym: XK_K, modifiers: MOD_KEY, action: Action::FocusPrev },
        KeyBinding { keysym: XK_J, modifiers: MOD_SHIFT, action: Action::SwapWindowNext },
        KeyBinding { keysym: XK_K, modifiers: MOD_SHIFT, action: Action::SwapWindowPrev },
        KeyBinding { keysym: XK_J, modifiers: MOD_CONTROL, action: Action::IcreaseSize },
        KeyBinding { keysym: XK_K, modifiers: MOD_CONTROL, action: Action::DecreaseSize },
        KeyBinding { keysym: XK_COMMA, modifiers: MOD_KEY, action: Action::MonitorPrev },
        KeyBinding { keysym: XK_PERIOD, modifiers: MOD_KEY, action: Action::MonitorNext },
        KeyBinding {
            keysym: XK_COMMA,
            modifiers: MOD_SHIFT,
            action: Action::MoveWindowToPrevMonitor,
        },
        KeyBinding {
            keysym: XK_PERIOD,
            modifiers: MOD_SHIFT,
            action: Action::MoveWindowToNextMonitor,
        },
        KeyBinding { keysym: XK_C, modifiers: MOD_SHIFT, action: Action::CloseWindow },
        KeyBinding { keysym: XK_Q, modifiers: MOD_SHIFT, action: Action::QuitWM },
    ]
}

/// No two entries of `bindings` answer to the same key and modifiers.
pub open spec fn distinct_keys(bindings: Seq<KeyBinding>) -> bool {
    forall|i: int, j: int|
        0 <= i < j < bindings.len() ==> !(#[trigger] bindings[i].keysym
            == #[trigger] bindings[j].keysym && bindings[i].modifiers == bindings[j].modifiers)
}

/// The built-in key binding table.
pub fn key_bindings() -> (table: Vec<KeyBinding>)
    ensures
        table@ == key_bindings_spec(),
{
    let table = vec![
        KeyBinding { keysym: XK_TAB, modifiers: MOD_CONTROL, action: Action::SwitchLayout },
        KeyBinding { keysym: XK_RETURN, modifiers: MOD_KEY, action: Action::OpenTerminal },
        KeyBinding { keysym: XK_D, modifiers: MOD_KEY, action: Action::OpenLauncher },
        KeyBinding { keysym: XK_J, modifiers: MOD_KEY, action: Action::FocusNext },
        KeyBinding { keysym: XK_K, modifiers: MOD_KEY, action: Action::FocusPrev },
        KeyBinding { keysym: XK_J, modifiers: MOD_SHIFT, action: Action::SwapWindowNext },
        KeyBinding { keysym: XK_K, modifiers: MOD_SHIFT, action: Action::SwapWindowPrev },
        KeyBinding { keysym: XK_J, modifiers: MOD_CONTROL, action: Action::IcreaseSize },
        KeyBinding { keysym: XK_K, modifiers: MOD_CONTROL, action: Action::DecreaseSize },
        KeyBinding { keysym: XK_COMMA, modifiers: MOD_KEY, action: Action::MonitorPrev },
        KeyBinding { keysym: XK_PERIOD, modifiers: MOD_KEY, action: Action::MonitorNext },
        KeyBinding {
            keysym: XK_COMMA,
            modifiers: MOD_SHIFT,
            action: Action::MoveWindowToPrevMonitor,
        },
        KeyBinding {
            keysym: XK_PERIOD,
            modifiers: MOD_SHIFT,
            action: Action::MoveWindowToNextMonitor,
        },
        KeyBinding { keysym: XK_C, modifiers: MOD_SHIFT, action: Action::CloseWindow },
        KeyBinding { keysym: XK_Q, modifiers: MOD_SHIFT, action: Action::QuitWM },
    ];
    table
}

/// Every key of the built-in table triggers one action only.
pub proof fn lemma_key_bindings_distinct()
    ensures
        distinct_keys(key_bindings_spec()),
{
    let t = key_bindings_spec();
    assert forall|i: int, j: int| 0 <= i < j < t.len() implies !(#[trigger] t[i].keysym
        == #[trigger] t[j].keysym && t[i].modifiers == t[j].modifiers) by {}
}

/// A program to launch, with its arguments.
pub struct AppCommand {
    pub program: &'static str,
    pub args: Vec<&'static str>,
}

impl AppCommand {
    /// The arguments as character sequences.
    pub open spec fn args_spec(self) -> Seq<Seq<char>> {
        Seq::new(self.args@.len(), |i: int| self.args@[i]@)
    }
}

/// The terminal emulator.
pub fn terminal() -> (app: AppCommand)
    ensures
        app.program@ == "alacritty"@,
        app.args_spec() == Seq::<Seq<char>>::empty(),
{
    let app = AppCommand { program: "alacritty", args: Vec::new() };
    app
}

/// The program launcher.
pub fn launcher() -> (app: AppCommand)
    ensures
        app.program@ == "rofi"@,
        app.args_spec() == seq!["-show"@, "drun"@],
{
    let app = AppCommand { program: "rofi", args: vec!["-show", "drun"] };
    app
}

/// How many programs are started together with the window manager.
pub const AUTO_START_LEN: usize = 2;

/// The programs started together with the window manager.
pub fn auto_start() -> (apps: Vec<AppCommand>)
    ensures
        apps@.len() == AUTO_START_LEN,
        apps@[0].program@ == "feh"@,
        apps@[0].args_spec() == seq![
            "--bg-max"@,
            "/home/doom/Pictures/Wallpapers/Gnu_Koan.png"@,
        ],
        apps@[1].program@ == "sh"@,
        apps@[1].args_spec() == seq!["/home/doom/.screenlayout/dual.sh"@],
{
    let feh = AppCommand {
        program: "feh",
        args: vec!["--bg-max", "/home/doom/Pictures/Wallpapers/Gnu_Koan.png"],
    };
    let sh = AppCommand { program: "sh", args: vec!["/home/doom/.screenlayout/dual.sh"] };
    let mut apps: Vec<AppCommand> = Vec::new();
    apps.push(feh);
    apps.push(sh);
    apps
}

} // verus!

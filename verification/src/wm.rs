//! The window manager's state and what must always hold of it.

use vstd::prelude::*;
use crate::command::Command;
use crate::config::{key_bindings, key_bindings_spec, KeyBinding, AUTO_START_LEN};
use crate::layouts::{LAYOUTS, MFACT_MAX, MFACT_MIN};
use crate::monitors::{build_topology, topology, Monitor, ScreenInfo};
use crate::window::{windows_of, Client, Window};

verus! {

/// Everything the window manager knows: the layout and its split, the
/// monitors, the managed windows in their order, and which of them has the
/// focus.
pub struct KoanWM {
    /// The share of a monitor's width given to the master window, in
    /// hundredths.
    pub mfact: u32,
    pub layout: LAYOUTS,
    pub monitors: Vec<Monitor>,
    pub current_monitor: usize,
    pub clients: Vec<Client>,
    pub focused: Option<Window>,
    /// The windows of the status bars.
    pub modelines: Vec<Window>,
}

/// The mathematical content of a `KoanWM`.
pub struct State {
    pub mfact: u32,
    pub layout: LAYOUTS,
    pub monitors: Seq<Monitor>,
    pub current_monitor: usize,
    pub clients: Seq<Client>,
    pub focused: Option<Window>,
    pub modelines: Seq<Window>,
}

impl View for KoanWM {
    type V = State;

    open spec fn view(&self) -> State {
        State {
            mfact: self.mfact,
            layout: self.layout,
            monitors: self.monitors@,
            current_monitor: self.current_monitor,
            clients: self.clients@,
            focused: self.focused,
            modelines: self.modelines@,
        }
    }
}

impl State {
    /// The handles of the managed windows, in registry order.
    pub open spec fn windows(self) -> Seq<Window> {
        windows_of(self.clients)
    }

    /// Whether `window` is managed.
    pub open spec fn is_client(self, window: Window) -> bool {
        self.windows().contains(window)
    }

    /// What holds of every state the window manager is ever in:
    /// there is a monitor, and each monitor knows its own place; the
    /// current monitor and every client's monitor exist; no window is
    /// managed twice; the focused window, if any, is managed; the
    /// master's share is within its limits; and the registry is no longer
    /// than the machine can count.
    pub open spec fn wf(self) -> bool {
        &&& self.monitors.len() >= 1
        &&& self.clients.len() <= usize::MAX
        &&& forall|i: int|
            0 <= i < self.monitors.len() ==> (#[trigger] self.monitors[i]).index == i
                && self.monitors[i].in_range()
        &&& self.current_monitor < self.monitors.len()
        &&& forall|i: int|
            0 <= i < self.clients.len() ==> (#[trigger] self.clients[i]).monitor
                < self.monitors.len()
        &&& self.windows().no_duplicates()
        &&& (self.focused matches Some(w) ==> self.is_client(w))
        &&& MFACT_MIN <= self.mfact <= MFACT_MAX
    }

    /// The state the window manager starts in on a display with the given
    /// topology.
    pub open spec fn initial(screens: Seq<ScreenInfo>, root_width: u16, root_height: u16) -> State {
        State {
            mfact: 50,
            layout: LAYOUTS::MONOCLE,
            monitors: topology(screens, root_width, root_height),
            current_monitor: 0,
            clients: Seq::empty(),
            focused: None,
            modelines: Seq::empty(),
        }
    }
}

/// The requests that launch the start-up programs, in order.
pub open spec fn autostart_commands() -> Seq<Command> {
    Seq::new(AUTO_START_LEN as nat, |i: int| Command::SpawnAutoStart(i as usize))
}

/// The requests that reserve the keys of a binding table, in order.
pub open spec fn grab_commands(bindings: Seq<KeyBinding>) -> Seq<Command> {
    Seq::new(
        bindings.len(),
        |i: int| Command::GrabKey { keysym: bindings[i].keysym, modifiers: bindings[i].modifiers },
    )
}

impl State {
    /// What is asked of the outside world when the window manager starts:
    /// to be told of what happens on the root area; the start-up programs;
    /// a status bar for every monitor, and the timer that keeps them up to
    /// date; and the keys of the built-in binding table, after all keys
    /// reserved before have been released.
    pub open spec fn init_commands(self) -> Seq<Command> {
        seq![Command::SelectRootInput] + autostart_commands() + self.create_modeline_commands()
            + seq![Command::SpawnModelineTimer, Command::UngrabKeys] + grab_commands(
            key_bindings_spec(),
        )
    }
}

impl KoanWM {
    /// See `State::wf`.
    pub open spec fn wf(&self) -> bool {
        self@.wf()
    }

    /// What a window manager holds is never longer than the machine can
    /// count.
    pub proof fn lemma_fits(&self)
        ensures
            self@.clients.len() <= usize::MAX,
            self@.monitors.len() <= usize::MAX,
    {
        assert(self.clients.len() == self.clients@.len());
        assert(self.monitors.len() == self.monitors@.len());
    }

    /// A window manager that manages no window yet, on a display whose
    /// multi-monitor extension reports `screens` (none, if it is missing)
    /// and whose root area is `root_width` by `root_height`.
    pub fn new(screens: &Vec<ScreenInfo>, root_width: u16, root_height: u16) -> (wm: KoanWM)
        ensures
            wm.wf(),
            wm@ == State::initial(screens@, root_width, root_height),
    {
        let wm = KoanWM {
            layout: LAYOUTS::MONOCLE,
            mfact: 50,
            clients: Vec::new(),
            focused: None,
            monitors: build_topology(screens, root_width, root_height),
            current_monitor: 0,
            modelines: Vec::new(),
        };
        wm
    }

    /// The requests that launch the start-up programs.
    pub fn exec_autostart(&self) -> (commands: Vec<Command>)
        ensures
            commands@ == autostart_commands(),
    {
        let mut commands: Vec<Command> = Vec::new();
        let mut i: usize = 0;
        while i < AUTO_START_LEN
            invariant
                i <= AUTO_START_LEN,
                commands@ == autostart_commands().take(i as int),
            decreases AUTO_START_LEN - i,
        {
            commands.push(Command::SpawnAutoStart(i));
            i += 1;
        }
        commands
    }

    /// Starts the window manager: hands out what is to be asked of the
    /// outside world before the first event is fetched. The windows and
    /// the focus stay as they are.
    pub fn init(&mut self) -> (commands: Vec<Command>)
        requires
            old(self).wf(),
        ensures
            final(self).wf(),
            final(self)@ == old(self)@.create_modeline(),
            commands@ == old(self)@.init_commands(),
    {
        let mut commands: Vec<Command> = Vec::new();
        commands.push(Command::SelectRootInput);
        let mut spawns = self.exec_autostart();
        commands.append(&mut spawns);
        let mut bars = self.create_modeline();
        commands.append(&mut bars);
        commands.push(Command::SpawnModelineTimer);
        commands.push(Command::UngrabKeys);
        let ghost before = commands@;
        let bindings = key_bindings();
        let mut i: usize = 0;
        while i < bindings.len()
            invariant
                i <= bindings@.len(),
                bindings@ == key_bindings_spec(),
                commands@ == before + grab_commands(bindings@).take(i as int),
            decreases bindings@.len() - i,
        {
            let binding = bindings[i];
            commands.push(
                Command::GrabKey { keysym: binding.keysym, modifiers: binding.modifiers },
            );
            i += 1;
        }
        commands
    }

    /// Whether no window handle occurs twice in the registry.
    fn windows_distinct(&self) -> (ok: bool)
        ensures
            ok == self@.windows().no_duplicates(),
    {
        let n = self.clients.len();
        let mut i: usize = 0;
        while i < n
            invariant
                n == self@.clients.len(),
                i <= n,
                forall|a: int, b: int|
                    0 <= a < i && a < b < n ==> self@.clients[a].window != self@.clients[b].window,
            decreases n - i,
        {
            let mut j: usize = i + 1;
            while j < n
                invariant
                    n == self@.clients.len(),
                    i < j <= n,
                    forall|a: int, b: int|
                        0 <= a < i && a < b < n ==> self@.clients[a].window
                            != self@.clients[b].window,
                    forall|b: int|
                        i < b < j ==> self@.clients[i as int].window != self@.clients[b].window,
                decreases n - j,
            {
                if self.clients[i].window == self.clients[j].window {
                    assert(self@.windows()[i as int] == self@.windows()[j as int]);
                    return false;
                }
                j += 1;
            }
            i += 1;
        }
        let ghost windows = self@.windows();
        assert forall|a: int, b: int|
            0 <= a < windows.len() && 0 <= b < windows.len() && a != b implies windows[a]
            != windows[b] by {}
        true
    }

    /// Whether every monitor knows its own place and has coordinates the
    /// display protocol can carry.
    fn monitors_sound(&self) -> (ok: bool)
        ensures
            ok == (forall|i: int|
                0 <= i < self@.monitors.len() ==> (#[trigger] self@.monitors[i]).index == i
                    && self@.monitors[i].in_range()),
    {
        let mut i: usize = 0;
        while i < self.monitors.len()
            invariant
                i <= self@.monitors.len(),
                forall|j: int|
                    0 <= j < i ==> (#[trigger] self@.monitors[j]).index == j
                        && self@.monitors[j].in_range(),
            decreases self@.monitors.len() - i,
        {
            let m = self.monitors[i];
            let in_range = -0x8000 <= m.x && m.x <= 0x7fff && -0x8000 <= m.y && m.y <= 0x7fff
                && -0x8000 <= m.width && m.width <= 0xffff && -0x8000 <= m.height && m.height
                <= 0xffff;
            if m.index != i || !in_range {
                return false;
            }
            i += 1;
        }
        true
    }

    /// Whether every client is on a monitor that exists.
    fn clients_housed(&self) -> (ok: bool)
        ensures
            ok == (forall|i: int|
                0 <= i < self@.clients.len() ==> (#[trigger] self@.clients[i]).monitor
                    < self@.monitors.len()),
    {
        let count = self.monitors.len();
        let mut i: usize = 0;
        while i < self.clients.len()
            invariant
                count == self@.monitors.len(),
                i <= self@.clients.len(),
                forall|j: int| 0 <= j < i ==> (#[trigger] self@.clients[j]).monitor < count,
            decreases self@.clients.len() - i,
        {
            if self.clients[i].monitor >= count {
                return false;
            }
            i += 1;
        }
        true
    }

    /// Whether the state is sound. Every operation of the window manager
    /// keeps a sound state sound; this is for a state that was put together
    /// by hand.
    pub fn is_wf(&self) -> (ok: bool)
        ensures
            ok == self.wf(),
    {
        proof {
            self.lemma_fits();
        }
        if self.monitors.len() < 1 || self.current_monitor >= self.monitors.len() {
            return false;
        }
        if self.mfact < MFACT_MIN || self.mfact > MFACT_MAX {
            return false;
        }
        if !self.monitors_sound() || !self.clients_housed() || !self.windows_distinct() {
            return false;
        }
        match self.focused {
            Some(window) => self.find_client(window).is_some(),
            None => true,
        }
    }
}

} // verus!

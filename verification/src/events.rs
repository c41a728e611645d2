//! The dispatch of display events: what each event does to the state and
//! what is asked of the display server in answer.

use vstd::prelude::*;
use crate::command::{place_all, place_commands, Command};
use crate::config::{
    distinct_keys, key_bindings, key_bindings_spec, Action, KeyBinding, CURSOR_ENTER_FOCUS,
    RELEVANT_MODIFIERS,
};
use crate::error::KoanWMError;
use crate::monitors::{Monitor, ScreenInfo};
use crate::window::{
    indices_on, lemma_index_of, lemma_indices_on, lemma_windows_on, selects, windows_on, Atom,
    Window, WindowAttributes, WindowInfo,
};
use crate::wm::{KoanWM, State};

verus! {

/// What the display server, or the timer of the status bar, tells the
/// window manager, together with what the handling of it needs to know of
/// the display.
pub enum Event {
    /// A message from another client of the display server. `update_atom`
    /// names the message that asks for a redraw of the status bars.
    ClientMessage { message_type: Atom, update_atom: Atom },
    /// A window has to be drawn again.
    Expose { window: Window },
    /// A window has changed its geometry. Where it is the root window, the
    /// topology has changed to `screens` and the root area to `root_width`
    /// by `root_height`.
    ConfigureNotify {
        window: Window,
        root: Window,
        screens: Vec<ScreenInfo>,
        root_width: u16,
        root_height: u16,
    },
    /// A window asks to be shown.
    MapRequest { window: Window, info: WindowInfo },
    /// A window is no longer shown.
    UnmapNotify { window: Window },
    /// The pointer has entered a window, at this point of the root area.
    EnterNotify { window: Window, x_root: i32, y_root: i32 },
    /// A key was pressed, with these modifiers held. `geometry` is the
    /// present size of the focused window, where it could be read.
    KeyPress { keysym: u64, state: u32, geometry: Option<WindowAttributes> },
    /// Anything else.
    Other,
}

/// How the handling of an event ends.
pub enum Step {
    /// With requests to the outside world, to be carried out in order
    /// before the next event is fetched.
    Continue(Vec<Command>),
    /// With the end of the window manager.
    Quit,
}

impl Step {
    /// The requests that the step hands out.
    pub open spec fn commands(self) -> Seq<Command> {
        match self {
            Step::Continue(commands) => commands@,
            Step::Quit => Seq::empty(),
        }
    }
}

/// Whether a binding answers to a key pressed with the modifiers of
/// `state`: the key symbols are the same, and so are the modifiers once the
/// bits that do not count are taken out of `state`.
pub open spec fn binding_matches(binding: KeyBinding, keysym: u64, state: u32) -> bool {
    keysym == binding.keysym as u64 && (state & RELEVANT_MODIFIERS) == binding.modifiers
}

/// The action of the first binding, from place `from` on, that answers to
/// the key.
pub open spec fn resolve_from(
    bindings: Seq<KeyBinding>,
    keysym: u64,
    state: u32,
    from: int,
) -> Option<Action>
    decreases bindings.len() - from,
{
    if from < 0 || from >= bindings.len() {
        None
    } else if binding_matches(bindings[from], keysym, state) {
        Some(bindings[from].action)
    } else {
        resolve_from(bindings, keysym, state, from + 1)
    }
}

/// The action bound to a key: that of the first binding that answers to
/// it.
pub open spec fn resolve(bindings: Seq<KeyBinding>, keysym: u64, state: u32) -> Option<Action> {
    resolve_from(bindings, keysym, state, 0)
}

/// The action bound to a key pressed with the modifiers of `state`, if
/// there is one.
pub fn resolve_key(bindings: &Vec<KeyBinding>, keysym: u64, state: u32) -> (action: Option<Action>)
    ensures
        action == resolve(bindings@, keysym, state),
        action is None <==> forall|i: int|
            0 <= i < bindings@.len() ==> !binding_matches(#[trigger] bindings@[i], keysym, state),
{
    let clean_state = state & RELEVANT_MODIFIERS;
    let mut i: usize = 0;
    while i < bindings.len()
        invariant
            i <= bindings@.len(),
            clean_state == state & RELEVANT_MODIFIERS,
            resolve(bindings@, keysym, state) == resolve_from(bindings@, keysym, state, i as int),
            forall|j: int| 0 <= j < i ==> !binding_matches(#[trigger] bindings@[j], keysym, state),
        decreases bindings@.len() - i,
    {
        let binding = bindings[i];
        if keysym == binding.keysym as u64 && clean_state == binding.modifiers {
            return Some(binding.action);
        }
        i += 1;
    }
    None
}

/// In a table where every key triggers one action only, at most one
/// binding answers to a key, and it is the one that `resolve` finds.
pub proof fn lemma_single_match(bindings: Seq<KeyBinding>, keysym: u64, state: u32, i: int)
    requires
        distinct_keys(bindings),
        0 <= i < bindings.len(),
        binding_matches(bindings[i], keysym, state),
    ensures
        resolve(bindings, keysym, state) == Some(bindings[i].action),
        forall|j: int|
            0 <= j < bindings.len() && binding_matches(#[trigger] bindings[j], keysym, state) ==> j
                == i,
{
    assert forall|j: int|
        0 <= j < bindings.len() && binding_matches(#[trigger] bindings[j], keysym, state) implies j
        == i by {}
    lemma_resolve_skips(bindings, keysym, state, 0, i);
}

proof fn lemma_resolve_skips(bindings: Seq<KeyBinding>, keysym: u64, state: u32, from: int, i: int)
    requires
        0 <= from <= i < bindings.len(),
        binding_matches(bindings[i], keysym, state),
        forall|j: int| from <= j < i ==> !binding_matches(#[trigger] bindings[j], keysym, state),
    ensures
        resolve_from(bindings, keysym, state, from) == Some(bindings[i].action),
    decreases i - from,
{
    if from < i {
        lemma_resolve_skips(bindings, keysym, state, from + 1, i);
    }
}

/// Modifiers that do not count, such as the lock keys, make no difference
/// to what a key is bound to.
pub proof fn lemma_lock_ignored(bindings: Seq<KeyBinding>, keysym: u64, state: u32, lock: u32)
    requires
        lock & RELEVANT_MODIFIERS == 0,
    ensures
        resolve(bindings, keysym, state | lock) == resolve(bindings, keysym, state),
{
    assert((state | lock) & RELEVANT_MODIFIERS == state & RELEVANT_MODIFIERS) by (bit_vector)
        requires
            lock & RELEVANT_MODIFIERS == 0,
    ;
    lemma_resolve_alike(bindings, keysym, state | lock, state, 0);
}

proof fn lemma_resolve_alike(bindings: Seq<KeyBinding>, keysym: u64, a: u32, b: u32, from: int)
    requires
        a & RELEVANT_MODIFIERS == b & RELEVANT_MODIFIERS,
        0 <= from,
    ensures
        resolve_from(bindings, keysym, a, from) == resolve_from(bindings, keysym, b, from),
    decreases bindings.len() - from,
{
    if from < bindings.len() {
        lemma_resolve_alike(bindings, keysym, a, b, from + 1);
    }
}

/// The first monitor, from place `from` on, that holds the point.
pub open spec fn monitor_at_from(monitors: Seq<Monitor>, x: int, y: int, from: int) -> Option<usize>
    decreases monitors.len() - from,
{
    if from < 0 || from >= monitors.len() {
        None
    } else if monitors[from].contains_point(x, y) {
        Some(from as usize)
    } else {
        monitor_at_from(monitors, x, y, from + 1)
    }
}

/// The first monitor that holds the point.
pub open spec fn monitor_at(monitors: Seq<Monitor>, x: int, y: int) -> Option<usize> {
    monitor_at_from(monitors, x, y, 0)
}

impl State {
    /// The state with the monitor under the pointer as the current one;
    /// where the pointer is over no monitor, the current one stays.
    pub open spec fn pointed(self, x: int, y: int) -> State {
        State {
            current_monitor: match monitor_at(self.monitors, x, y) {
                Some(monitor) => monitor,
                None => self.current_monitor,
            },
            ..self
        }
    }

    /// The state after the pointer has entered `window` at (`x`, `y`): the
    /// monitor under the pointer is the current one, and a managed window
    /// takes the focus.
    pub open spec fn enter(self, window: Window, x: int, y: int) -> State {
        if !CURSOR_ENTER_FOCUS {
            self
        } else if self.is_client(window) {
            self.pointed(x, y).focus(window)
        } else {
            self.pointed(x, y)
        }
    }

    /// What is asked of the display server when the pointer enters
    /// `window`.
    pub open spec fn enter_commands(self, window: Window, x: int, y: int) -> Seq<Command> {
        if CURSOR_ENTER_FOCUS && self.is_client(window) {
            self.pointed(x, y).focus_commands(window)
        } else {
            Seq::empty()
        }
    }

    /// The state with `window` taken out of the registry and, where it had
    /// the focus, with no window focused.
    pub open spec fn removed(self, window: Window) -> State {
        State {
            clients: self.clients.remove(self.index_of(window)),
            focused: if self.focused == Some(window) {
                None
            } else {
                self.focused
            },
            ..self
        }
    }

    /// The window that takes the focus when `window` goes: where `window`
    /// had the focus, the last of the windows that stay on its monitor.
    pub open spec fn heir(self, window: Window) -> Option<Window> {
        if self.is_client(window) && self.focused == Some(window) {
            self.removed(window).last_on(self.client_of(window).monitor)
        } else {
            None
        }
    }

    /// The state after `window` is no longer shown. A window that is not
    /// managed changes nothing.
    pub open spec fn unmap(self, window: Window) -> State {
        if !self.is_client(window) {
            self
        } else {
            match self.heir(window) {
                Some(next) => self.removed(window).focus(next),
                None => self.removed(window),
            }
        }
    }

    /// What is asked of the display server when `window` is no longer
    /// shown.
    pub open spec fn unmap_commands(self, window: Window) -> Seq<Command> {
        if !self.is_client(window) {
            Seq::empty()
        } else {
            (match self.heir(window) {
                Some(next) => self.removed(window).focus_commands(next),
                None => Seq::empty(),
            }) + place_all(self.unmap(window).layout())
        }
    }

    /// The state after an action has been carried out.
    pub open spec fn perform(self, action: Action) -> State {
        match action {
            Action::SwitchLayout => self.switch_layout(),
            Action::OpenTerminal => self,
            Action::OpenLauncher => self,
            Action::QuitWM => self,
            Action::CloseWindow => self,
            Action::FocusNext => self.cycle_focus(true),
            Action::FocusPrev => self.cycle_focus(false),
            Action::MonitorPrev => self.monitor_prev(),
            Action::MonitorNext => self.monitor_next(),
            Action::MoveWindowToNextMonitor => self.move_window(true),
            Action::MoveWindowToPrevMonitor => self.move_window(false),
            Action::SwapWindowNext => self.swap_window(true),
            Action::SwapWindowPrev => self.swap_window(false),
            Action::IcreaseSize => self.resize_window(true),
            Action::DecreaseSize => self.resize_window(false),
            Action::ToggleFloat => self.toggle_float(),
        }
    }

    /// What is asked of the outside world when an action is carried out.
    pub open spec fn perform_commands(
        self,
        action: Action,
        geometry: Option<WindowAttributes>,
    ) -> Seq<Command> {
        match action {
            Action::SwitchLayout => place_all(self.switch_layout().layout()),
            Action::OpenTerminal => seq![Command::SpawnTerminal],
            Action::OpenLauncher => seq![Command::SpawnLauncher],
            Action::QuitWM => Seq::empty(),
            Action::CloseWindow => match self.focused {
                Some(window) => seq![Command::SendDelete { window }],
                None => Seq::empty(),
            },
            Action::FocusNext => self.cycle_commands(true),
            Action::FocusPrev => self.cycle_commands(false),
            Action::MonitorPrev => self.monitor_step_commands(false),
            Action::MonitorNext => self.monitor_step_commands(true),
            Action::MoveWindowToNextMonitor => self.move_window_commands(true),
            Action::MoveWindowToPrevMonitor => self.move_window_commands(false),
            Action::SwapWindowNext => self.swap_commands(true),
            Action::SwapWindowPrev => self.swap_commands(false),
            Action::IcreaseSize => self.resize_commands(true, geometry),
            Action::DecreaseSize => self.resize_commands(false, geometry),
            Action::ToggleFloat => self.toggle_commands(),
        }
    }

    /// The state after a key has been pressed: the action bound to it in
    /// the built-in table, if any, has been carried out.
    pub open spec fn keypress(self, keysym: u64, state: u32) -> State {
        match resolve(key_bindings_spec(), keysym, state) {
            Some(action) => self.perform(action),
            None => self,
        }
    }

    /// What is asked of the outside world when a key has been pressed.
    pub open spec fn keypress_commands(
        self,
        keysym: u64,
        state: u32,
        geometry: Option<WindowAttributes>,
    ) -> Seq<Command> {
        match resolve(key_bindings_spec(), keysym, state) {
            Some(action) => self.perform_commands(action, geometry),
            None => Seq::empty(),
        }
    }

    /// Whether the event ends the window manager: it is the press of the
    /// key bound to quitting.
    pub open spec fn quits(event: Event) -> bool {
        event matches Event::KeyPress { keysym, state, .. } && resolve(
            key_bindings_spec(),
            keysym,
            state,
        ) == Some(Action::QuitWM)
    }

    /// The state after an event has been handled.
    pub open spec fn handle(self, event: Event) -> State {
        match event {
            Event::ClientMessage { .. } => self,
            Event::Expose { .. } => self,
            Event::ConfigureNotify { window, root, screens, root_width, root_height } => if window
                == root {
                self.create_modeline().refresh(screens@, root_width, root_height)
            } else {
                self
            },
            Event::MapRequest { window, info } => self.manage(window, info),
            Event::UnmapNotify { window } => self.unmap(window),
            Event::EnterNotify { window, x_root, y_root } => self.enter(
                window,
                x_root as int,
                y_root as int,
            ),
            Event::KeyPress { keysym, state, .. } => self.keypress(keysym, state),
            Event::Other => self,
        }
    }

    /// What is asked of the outside world when an event is handled.
    pub open spec fn handle_commands(self, event: Event) -> Seq<Command> {
        match event {
            Event::ClientMessage { message_type, update_atom } => if message_type == update_atom {
                seq![Command::UpdateModeline]
            } else {
                Seq::empty()
            },
            Event::Expose { window } => if self.modelines.contains(window) {
                seq![Command::UpdateModeline]
            } else {
                Seq::empty()
            },
            Event::ConfigureNotify { window, root, screens, root_width, root_height } => if window
                == root {
                self.create_modeline_commands() + place_all(self.handle(event).layout())
            } else {
                Seq::empty()
            },
            Event::MapRequest { window, info } => self.manage_commands(window, info),
            Event::UnmapNotify { window } => self.unmap_commands(window),
            Event::EnterNotify { window, x_root, y_root } => self.enter_commands(
                window,
                x_root as int,
                y_root as int,
            ),
            Event::KeyPress { keysym, state, geometry } => self.keypress_commands(
                keysym,
                state,
                geometry,
            ),
            Event::Other => Seq::empty(),
        }
    }
}

impl KoanWM {
    /// Answers the pointer entering `window` at (`x_root`, `y_root`) of
    /// the root area: the monitor under the pointer becomes the current
    /// one, and `window`, where it is managed, takes the focus.
    pub fn handle_enter_notify(
        &mut self,
        window: Window,
        x_root: i32,
        y_root: i32,
    ) -> (commands: Vec<Command>)
        requires
            old(self).wf(),
        ensures
            final(self).wf(),
            final(self)@ == old(self)@.enter(window, x_root as int, y_root as int),
            commands@ == old(self)@.enter_commands(window, x_root as int, y_root as int),
    {
        if !CURSOR_ENTER_FOCUS {
            return Vec::new();
        }
        let mouse_x = x_root;
        let mouse_y = y_root;
        let mut i: usize = 0;
        let mut hit = false;
        while i < self.monitors.len() && !hit
            invariant
                self.wf(),
                *self == *old(self),
                i <= self@.monitors.len(),
                hit ==> i < self@.monitors.len() && self@.monitors[i as int].contains_point(
                    mouse_x as int,
                    mouse_y as int,
                ),
                monitor_at(self@.monitors, mouse_x as int, mouse_y as int) == monitor_at_from(
                    self@.monitors,
                    mouse_x as int,
                    mouse_y as int,
                    i as int,
                ),
            decreases self@.monitors.len() - i + if hit { 0int } else { 1int },
        {
            let m = self.monitors[i];
            if mouse_x >= m.x && mouse_x < m.x + m.width && mouse_y >= m.y && mouse_y < m.y
                + m.height {
                hit = true;
            } else {
                i += 1;
            }
        }
        if hit {
            self.current_monitor = i;
        }
        if self.find_client(window).is_some() {
            self.focus_window(window)
        } else {
            Vec::new()
        }
    }

    /// Answers `window` no longer being shown: it leaves the registry.
    /// Where it had the focus, the last of the windows that stay on its
    /// monitor takes the focus, or no window where none stays. The windows
    /// are laid out anew. A window that is not managed changes nothing.
    pub fn handle_unmap(&mut self, window: Window) -> (commands: Vec<Command>)
        requires
            old(self).wf(),
        ensures
            final(self).wf(),
            final(self)@ == old(self)@.unmap(window),
            commands@ == old(self)@.unmap_commands(window),
            !final(self)@.is_client(window),
    {
        let mut commands: Vec<Command> = Vec::new();
        let i = match self.find_client(window) {
            Some(i) => i,
            None => {
                return commands;
            },
        };
        let was_focused = self.focused == Some(window);
        let monitor_idx = self.clients[i].monitor;
        self.clients.remove(i);
        if was_focused {
            self.focused = None;
        }
        proof {
            lemma_removed_wf(old(self)@, window);
        }
        if was_focused {
            let next_focus = self.last_window_on(monitor_idx);
            if let Some(next) = next_focus {
                let mut focus = self.focus_window(next);
                commands.append(&mut focus);
            }
        }
        let placements = self.layout();
        let mut place = place_commands(&placements);
        commands.append(&mut place);
        commands
    }

    /// Carries out an action. `geometry` is the present size of the
    /// focused window, where it could be read.
    pub fn perform(&mut self, action: Action, geometry: Option<WindowAttributes>) -> (step: Step)
        requires
            old(self).wf(),
        ensures
            final(self).wf(),
            final(self)@ == old(self)@.perform(action),
            step is Quit <==> action == Action::QuitWM,
            step.commands() == old(self)@.perform_commands(action, geometry),
    {
        let commands = match action {
            Action::SwitchLayout => self.switch_layout(),
            Action::OpenTerminal => vec![Command::SpawnTerminal],
            Action::OpenLauncher => vec![Command::SpawnLauncher],
            Action::QuitWM => {
                return Step::Quit;
            },
            Action::CloseWindow => {
                let mut commands: Vec<Command> = Vec::new();
                if let Some(win) = self.focused {
                    commands.push(Command::SendDelete { window: win });
                }
                commands
            },
            Action::FocusNext => self.cycle_focus(true),
            Action::FocusPrev => self.cycle_focus(false),
            Action::MonitorPrev => self.monitor_prev(),
            Action::MonitorNext => self.monitor_next(),
            Action::MoveWindowToNextMonitor => self.move_window_next_monitor(),
            Action::MoveWindowToPrevMonitor => self.move_window_prev_monitor(),
            Action::SwapWindowNext => self.swap_window(true),
            Action::SwapWindowPrev => self.swap_window(false),
            Action::IcreaseSize => self._resize_window(true, geometry),
            Action::DecreaseSize => self._resize_window(false, geometry),
            Action::ToggleFloat => self.toggle_float(),
        };
        Step::Continue(commands)
    }

    /// Answers a key pressed with the modifiers of `state` held: the
    /// action bound to it in the built-in table is carried out. A key that
    /// is not bound changes nothing.
    pub fn handle_keypress(
        &mut self,
        keysym: u64,
        state: u32,
        geometry: Option<WindowAttributes>,
    ) -> (step: Step)
        requires
            old(self).wf(),
        ensures
            final(self).wf(),
            final(self)@ == old(self)@.keypress(keysym, state),
            step is Quit <==> resolve(key_bindings_spec(), keysym, state) == Some(Action::QuitWM),
            step.commands() == old(self)@.keypress_commands(keysym, state, geometry),
    {
        let bindings = key_bindings();
        match resolve_key(&bindings, keysym, state) {
            Some(action) => self.perform(action, geometry),
            None => Step::Continue(Vec::new()),
        }
    }

    /// Handles one event: changes the state as the event asks and hands
    /// out what is to be asked of the outside world in answer.
    pub fn handle_event(&mut self, event: &Event) -> (step: Step)
        requires
            old(self).wf(),
        ensures
            final(self).wf(),
            final(self)@ == old(self)@.handle(*event),
            step is Quit <==> State::quits(*event),
            step.commands() == old(self)@.handle_commands(*event),
    {
        match event {
            Event::ClientMessage { message_type, update_atom } => {
                let mut commands: Vec<Command> = Vec::new();
                if *message_type == *update_atom {
                    commands.push(Command::UpdateModeline);
                }
                Step::Continue(commands)
            },
            Event::Expose { window } => {
                let mut commands: Vec<Command> = Vec::new();
                if self.is_modeline(*window) {
                    commands.push(Command::UpdateModeline);
                }
                Step::Continue(commands)
            },
            Event::ConfigureNotify { window, root, screens, root_width, root_height } => {
                let mut commands: Vec<Command> = Vec::new();
                if *window == *root {
                    let mut bars = self.create_modeline();
                    commands.append(&mut bars);
                    self.update_monitors(screens, *root_width, *root_height);
                    let placements = self.layout();
                    let mut place = place_commands(&placements);
                    commands.append(&mut place);
                }
                Step::Continue(commands)
            },
            Event::MapRequest { window, info } => Step::Continue(self.manage_window(*window, info)),
            Event::UnmapNotify { window } => Step::Continue(self.handle_unmap(*window)),
            Event::EnterNotify { window, x_root, y_root } => Step::Continue(
                self.handle_enter_notify(*window, *x_root, *y_root),
            ),
            Event::KeyPress { keysym, state, geometry } => self.handle_keypress(
                *keysym,
                *state,
                *geometry,
            ),
            Event::Other => Step::Continue(Vec::new()),
        }
    }
}

impl KoanWM {
    /// Handles one event like `handle_event`, for a caller that cannot
    /// show the state to be sound: a state that is not sound is refused and
    /// left as it is.
    pub fn dispatch(&mut self, event: &Event) -> (result: Result<Step, KoanWMError>)
        ensures
            old(self).wf() ==> {
                &&& result is Ok
                &&& final(self).wf()
                &&& final(self)@ == old(self)@.handle(*event)
                &&& result.unwrap() is Quit <==> State::quits(*event)
                &&& result.unwrap().commands() == old(self)@.handle_commands(*event)
            },
            !old(self).wf() ==> {
                &&& *final(self) == *old(self)
                &&& result matches Err(KoanWMError::GenericError(text)) && text@
                    == "inconsistent state"@
            },
    {
        if self.is_wf() {
            Ok(self.handle_event(event))
        } else {
            Err(KoanWMError::GenericError("inconsistent state".to_string()))
        }
    }
}

/// Taking a window out of the registry keeps the state sound, and the
/// window is gone.
pub proof fn lemma_removed_wf(state: State, window: Window)
    requires
        state.wf(),
        state.is_client(window),
    ensures
        state.removed(window).wf(),
        !state.removed(window).is_client(window),
        state.removed(window).clients.len() == state.clients.len() - 1,
{
    let i = state.index_of(window);
    let after = state.removed(window);
    let shift = |j: int|
        if j < i {
            j
        } else {
            j + 1
        };
    assert forall|j: int| 0 <= j < after.clients.len() implies #[trigger] after.windows()[j]
        == state.windows()[shift(j)] by {}
    let windows = after.windows();
    assert forall|j: int, k: int|
        0 <= j < windows.len() && 0 <= k < windows.len() && j != k implies windows[j]
        != windows[k] by {}
    if after.is_client(window) {
        let j = after.windows().index_of(window);
        assert(after.windows()[j] == state.windows()[shift(j)]);
    }
    if after.focused is Some {
        let f = after.focused.unwrap();
        let k = state.windows().index_of(f);
        if k < i {
            assert(after.windows()[k] == f);
        } else {
            assert(after.windows()[k - 1] == state.windows()[shift(k - 1)]);
        }
    }
}

/// When the focused window goes, the focus goes to a window that stays on
/// the same monitor, or to no window where none stays there; it never goes
/// to a window of another monitor.
pub proof fn lemma_unmap_focus(state: State, window: Window)
    requires
        state.wf(),
        state.focused == Some(window),
    ensures
        ({
            let monitor = state.client_of(window).monitor;
            let after = state.unmap(window);
            let alone = forall|i: int|
                0 <= i < state.clients.len() && (#[trigger] state.clients[i]).window != window
                    ==> state.clients[i].monitor != monitor;
            &&& after.wf()
            &&& alone ==> after.focused is None
            &&& !alone ==> after.focused is Some && after.focused != Some(window)
                && after.is_client(after.focused.unwrap()) && after.client_of(
                after.focused.unwrap(),
            ).monitor == monitor && state.is_client(after.focused.unwrap())
        }),
{
    let monitor = state.client_of(window).monitor;
    let i = state.index_of(window);
    let rest = state.removed(window);
    lemma_removed_wf(state, window);
    lemma_indices_on(rest.clients, monitor, false);
    let stay = windows_on(rest.clients, monitor, false);
    let shift = |j: int|
        if j < i {
            j
        } else {
            j + 1
        };
    assert forall|j: int| 0 <= j < rest.clients.len() implies #[trigger] rest.clients[j]
        == state.clients[shift(j)] by {}
    if stay.len() == 0 {
        let clients = state.clients;
        assert forall|k: int|
            0 <= k < clients.len() && (#[trigger] clients[k]).window
                != window implies clients[k].monitor != monitor by {
            let j = if k < i {
                k
            } else {
                k - 1
            };
            if state.clients[k].monitor == monitor {
                assert(selects(rest.clients[j], monitor, false));
            }
        }
    } else {
        let next = stay.last();
        let j = indices_on(rest.clients, monitor, false)[stay.len() - 1] as int;
        assert(state.windows()[shift(j)] == next);
        let after = rest.focus(next);
        lemma_index_of(after, next, j);
    }
}

} // verus!

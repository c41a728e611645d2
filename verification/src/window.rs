//! The registry of managed windows.

use vstd::prelude::*;
use crate::command::{place_all, place_commands, Command};
use crate::config::{Color, BORDER_WIDTH};
use crate::layouts::LAYOUTS;
use crate::monitors::Monitor;
use crate::wm::{KoanWM, State};

verus! {

/// The handle by which the display server names a window.
pub type Window = u64;

/// The number by which the display server names an interned string.
pub type Atom = u64;

/// A managed window: its handle, the monitor it is assigned to and whether
/// it floats above the tiled windows.
#[derive(Debug, Clone, Copy, PartialEq, Eq, Structural)]
pub struct Client {
    pub window: Window,
    pub monitor: usize,
    pub is_float: bool,
}

/// The window handles of `clients`, in registry order.
pub open spec fn windows_of(clients: Seq<Client>) -> Seq<Window> {
    Seq::new(clients.len(), |i: int| clients[i].window)
}

/// Whether `client` is on `monitor` and, if only tiled clients are asked
/// for, does not float.
pub open spec fn selects(client: Client, monitor: usize, tiled_only: bool) -> bool {
    client.monitor == monitor && (tiled_only ==> !client.is_float)
}

/// The places in the registry of the clients on `monitor`, in ascending
/// order; with `tiled_only`, of those among them that do not float.
pub open spec fn indices_on(clients: Seq<Client>, monitor: usize, tiled_only: bool) -> Seq<usize>
    decreases clients.len(),
{
    if clients.len() == 0 {
        Seq::empty()
    } else {
        let rest = indices_on(clients.drop_last(), monitor, tiled_only);
        if selects(clients.last(), monitor, tiled_only) {
            rest.push((clients.len() - 1) as usize)
        } else {
            rest
        }
    }
}

/// The windows on `monitor`, in registry order; with `tiled_only`, those
/// among them that do not float.
pub open spec fn windows_on(clients: Seq<Client>, monitor: usize, tiled_only: bool) -> Seq<Window> {
    let indices = indices_on(clients, monitor, tiled_only);
    Seq::new(indices.len(), |k: int| clients[indices[k] as int].window)
}

/// `indices_on` lists exactly the selected clients, each once, in registry
/// order.
pub proof fn lemma_indices_on(clients: Seq<Client>, monitor: usize, tiled_only: bool)
    requires
        clients.len() <= usize::MAX,
    ensures
        indices_on(clients, monitor, tiled_only).len() <= clients.len(),
        forall|k: int|
            0 <= k < indices_on(clients, monitor, tiled_only).len() ==> {
                let i = #[trigger] indices_on(clients, monitor, tiled_only)[k];
                i < clients.len() && selects(clients[i as int], monitor, tiled_only)
            },
        forall|k: int, l: int|
            0 <= k < l < indices_on(clients, monitor, tiled_only).len() ==> #[trigger] indices_on(
                clients,
                monitor,
                tiled_only,
            )[k] < #[trigger] indices_on(clients, monitor, tiled_only)[l],
        forall|i: int|
            0 <= i < clients.len() && selects(#[trigger] clients[i], monitor, tiled_only)
                ==> indices_on(clients, monitor, tiled_only).contains(i as usize),
    decreases clients.len(),
{
    if clients.len() > 0 {
        let front = clients.drop_last();
        let rest = indices_on(front, monitor, tiled_only);
        let all = indices_on(clients, monitor, tiled_only);
        lemma_indices_on(front, monitor, tiled_only);
        assert forall|i: int|
            0 <= i < clients.len() && selects(
                #[trigger] clients[i],
                monitor,
                tiled_only,
            ) implies all.contains(i as usize) by {
            if i < front.len() {
                assert(front[i] == clients[i]);
                let k = choose|k: int| 0 <= k < rest.len() && rest[k] == i as usize;
                assert(all[k] == i as usize);
            } else {
                assert(all[all.len() - 1] == i as usize);
            }
        }
        assert forall|k: int| 0 <= k < all.len() implies {
            let i = #[trigger] all[k];
            i < clients.len() && selects(clients[i as int], monitor, tiled_only)
        } by {}
    }
}

/// Lists the places in the registry of the clients on `monitor`; with
/// `tiled_only`, of those among them that do not float.
pub fn collect_indices(clients: &Vec<Client>, monitor: usize, tiled_only: bool) -> (indices: Vec<
    usize,
>)
    ensures
        indices@ == indices_on(clients@, monitor, tiled_only),
        forall|k: int| 0 <= k < indices@.len() ==> (#[trigger] indices@[k]) < clients@.len(),
{
    let mut indices: Vec<usize> = Vec::new();
    let mut i: usize = 0;
    while i < clients.len()
        invariant
            i <= clients@.len(),
            indices@ == indices_on(clients@.take(i as int), monitor, tiled_only),
        decreases clients@.len() - i,
    {
        let client = clients[i];
        proof {
            assert(clients@.take(i + 1).drop_last() =~= clients@.take(i as int));
        }
        if client.monitor == monitor && (!tiled_only || !client.is_float) {
            indices.push(i);
        }
        i += 1;
    }
    proof {
        assert(clients@.take(i as int) =~= clients@);
        lemma_indices_on(clients@, monitor, tiled_only);
    }
    indices
}

/// What the display server reports of a window's geometry and placement
/// policy.
#[derive(Debug, Clone, Copy, PartialEq, Eq, Structural)]
pub struct WindowAttributes {
    /// The window places itself and is not to be managed.
    pub override_redirect: bool,
    pub width: i32,
    pub height: i32,
}

/// What the display server reports of a window that asks to be shown.
pub struct WindowInfo {
    /// The window's attributes, or nothing where the query failed.
    pub attributes: Option<WindowAttributes>,
    /// The first entry of the window's type property, if it has one.
    pub window_type: Option<Atom>,
    /// The atoms of the window types named by `auxiliary_type_names`.
    pub auxiliary_types: Vec<Atom>,
    /// The window this one is a dialog of, if it says so.
    pub transient_for: Option<Window>,
}

/// Whether a window of this type is an auxiliary one, which the window
/// manager leaves alone: its type is one of `auxiliary_types`.
pub open spec fn is_auxiliary(window_type: Option<Atom>, auxiliary_types: Seq<Atom>) -> bool {
    window_type matches Some(t) && auxiliary_types.contains(t)
}

/// The names of the window types that mark an auxiliary window.
pub open spec fn auxiliary_type_names_spec() -> Seq<Seq<char>> {
    seq![
        "_NET_WM_WINDOW_TYPE_SPLASH"@,
        "_NET_WM_WINDOW_TYPE_TOOLBAR"@,
        "_NET_WM_WINDOW_TYPE_MENU"@,
        "_NET_WM_WINDOW_TYPE_DROPDOWN_MENU"@,
        "_NET_WM_WINDOW_TYPE_POPUP_MENU"@,
        "_NET_WM_WINDOW_TYPE_TOOLTIP"@,
        "_NET_WM_WINDOW_TYPE_NOTIFICATION"@,
        "_NET_WM_WINDOW_TYPE_COMBO"@,
        "_NET_WM_WINDOW_TYPE_DND"@,
    ]
}

/// The names of the window types that mark an auxiliary window: splash
/// screens, toolbars, menus of all kinds, tooltips, notifications, combo
/// boxes and drag-and-drop indicators.
pub fn auxiliary_type_names() -> (names: Vec<&'static str>)
    ensures
        names@.len() == auxiliary_type_names_spec().len(),
        forall|i: int|
            0 <= i < names@.len() ==> (#[trigger] names@[i])@ == auxiliary_type_names_spec()[i],
{
    vec![
        "_NET_WM_WINDOW_TYPE_SPLASH",
        "_NET_WM_WINDOW_TYPE_TOOLBAR",
        "_NET_WM_WINDOW_TYPE_MENU",
        "_NET_WM_WINDOW_TYPE_DROPDOWN_MENU",
        "_NET_WM_WINDOW_TYPE_POPUP_MENU",
        "_NET_WM_WINDOW_TYPE_TOOLTIP",
        "_NET_WM_WINDOW_TYPE_NOTIFICATION",
        "_NET_WM_WINDOW_TYPE_COMBO",
        "_NET_WM_WINDOW_TYPE_DND",
    ]
}

/// Whether a window of this type is an auxiliary one: it has a type, and
/// that type is one of `auxiliary_types`.
pub fn is_auxiliary_window_type(window_type: Option<Atom>, auxiliary_types: &Vec<Atom>) -> (aux:
    bool)
    ensures
        aux == is_auxiliary(window_type, auxiliary_types@),
{
    let kind = match window_type {
        Some(t) => t,
        None => {
            return false;
        },
    };
    let mut i: usize = 0;
    while i < auxiliary_types.len()
        invariant
            i <= auxiliary_types@.len(),
            window_type == Some(kind),
            forall|j: int| 0 <= j < i ==> auxiliary_types@[j] != kind,
        decreases auxiliary_types@.len() - i,
    {
        if kind == auxiliary_types[i] {
            return true;
        }
        i += 1;
    }
    false
}

/// Half of `v`, rounded toward zero.
pub open spec fn half(v: int) -> int {
    if v >= 0 {
        v / 2
    } else {
        -((-v) / 2)
    }
}

/// Where a window of `width` by `height` goes to be in the middle of the
/// monitor.
pub open spec fn centered(mon: Monitor, window: Window, width: int, height: int) -> Command {
    Command::Move {
        window,
        x: (mon.x + half(mon.width - width)) as i32,
        y: (mon.y + half(mon.height - height)) as i32,
    }
}

impl State {
    /// The place of `window` in the registry.
    pub open spec fn index_of(self, window: Window) -> int {
        self.windows().index_of(window)
    }

    /// The client that stands for `window`.
    pub open spec fn client_of(self, window: Window) -> Client {
        self.clients[self.index_of(window)]
    }

    /// The last window on `monitor` in registry order, floating or not.
    pub open spec fn last_on(self, monitor: usize) -> Option<Window> {
        let windows = windows_on(self.clients, monitor, false);
        if windows.len() == 0 {
            None
        } else {
            Some(windows.last())
        }
    }

    /// Whether a window that asks to be shown becomes a client: it is not
    /// one yet, its attributes could be read, it does not place itself, it
    /// is of no auxiliary type, and it is at least one pixel wide and high.
    pub open spec fn admits(self, window: Window, info: WindowInfo) -> bool {
        &&& !self.is_client(window)
        &&& info.attributes matches Some(attrs) && !attrs.override_redirect && attrs.width >= 1
            && attrs.height >= 1
        &&& !is_auxiliary(info.window_type, info.auxiliary_types@)
    }

    /// The state after `window` has taken the focus: it is the focused
    /// window, and its monitor the current one.
    pub open spec fn focus(self, window: Window) -> State {
        State {
            focused: Some(window),
            current_monitor: if self.is_client(window) {
                self.client_of(window).monitor
            } else {
                self.current_monitor
            },
            ..self
        }
    }

    /// What is asked of the display server when `window` takes the focus:
    /// the window that had it, if it is another, gets the inactive border;
    /// `window` gets the input focus, is raised and gets the active border;
    /// the status bar is redrawn.
    pub open spec fn focus_commands(self, window: Window) -> Seq<Command> {
        let before = if self.focused matches Some(previous) && previous != window {
            seq![Command::SetBorderColor { window: self.focused.unwrap(), color: Color::Secondary }]
        } else {
            Seq::empty()
        };
        before + seq![
            Command::SetInputFocus { window },
            Command::Raise { window },
            Command::SetBorderColor { window, color: Color::Primary },
            Command::UpdateModeline,
        ]
    }

    /// The registry with a new tiled client for `window` on the current
    /// monitor: at the end under the master layout, at the front when every
    /// monitor shows one window at a time.
    pub open spec fn with_tiled(self, window: Window) -> State {
        let client = Client { window, monitor: self.current_monitor, is_float: false };
        State {
            clients: match self.layout {
                LAYOUTS::MASTER => self.clients.push(client),
                LAYOUTS::MONOCLE => self.clients.insert(0, client),
            },
            ..self
        }
    }

    /// The registry with a new floating client for `window` on the current
    /// monitor, at the end.
    pub open spec fn with_floating(self, window: Window) -> State {
        State {
            clients: self.clients.push(
                Client { window, monitor: self.current_monitor, is_float: true },
            ),
            ..self
        }
    }

    /// The state after `window` has asked to be shown. A window that is not
    /// admitted changes nothing. A dialog of another window becomes a
    /// floating client and leaves the focus where it is; any other window
    /// becomes a tiled client and takes the focus.
    pub open spec fn manage(self, window: Window, info: WindowInfo) -> State {
        if !self.admits(window, info) {
            self
        } else if info.transient_for is Some {
            self.with_floating(window)
        } else {
            self.with_tiled(window).focus(window)
        }
    }

    /// What is asked of the display server when `window` asks to be shown.
    pub open spec fn manage_commands(self, window: Window, info: WindowInfo) -> Seq<Command> {
        if !self.admits(window, info) {
            Seq::empty()
        } else if info.transient_for is Some {
            seq![
                Command::MapRaised { window },
                Command::KeepAbove { window },
                centered(
                    self.monitors[self.current_monitor as int],
                    window,
                    info.attributes.unwrap().width as int,
                    info.attributes.unwrap().height as int,
                ),
            ]
        } else {
            seq![
                Command::SelectInput { window },
                Command::SetBorderWidth { window, width: BORDER_WIDTH },
            ] + place_all(self.with_tiled(window).layout()) + seq![
                Command::MapRaised { window },
                Command::Flush,
            ] + self.with_tiled(window).focus_commands(window)
        }
    }
}

/// A window that is less than one pixel wide or high is never admitted:
/// the registry, like everything else, stays as it is.
pub proof fn lemma_sizeless_not_admitted(state: State, window: Window, info: WindowInfo)
    requires
        info.attributes matches Some(attrs) && (attrs.width < 1 || attrs.height < 1),
    ensures
        !state.admits(window, info),
        state.manage(window, info) == state,
        state.manage(window, info).clients.len() == state.clients.len(),
        state.manage_commands(window, info) == Seq::<Command>::empty(),
{
}

/// Whoever is admitted is managed afterwards, on the monitor that was the
/// current one, and the registry has grown by that one client; a dialog
/// floats, any other window is tiled and has the focus.
pub proof fn lemma_admitted(state: State, window: Window, info: WindowInfo)
    requires
        state.wf(),
        state.admits(window, info),
        state.clients.len() < usize::MAX,
    ensures
        ({
            let after = state.manage(window, info);
            &&& after.wf()
            &&& after.clients.len() == state.clients.len() + 1
            &&& after.is_client(window)
            &&& after.client_of(window).monitor == state.current_monitor
            &&& after.client_of(window).is_float == (info.transient_for is Some)
            &&& info.transient_for is None ==> after.focused == Some(window)
            &&& info.transient_for is Some ==> after.focused == state.focused
            &&& forall|other: Window| state.is_client(other) ==> after.is_client(other)
        }),
{
    let n = state.clients.len() as int;
    let grown = if info.transient_for is Some {
        state.with_floating(window)
    } else {
        state.with_tiled(window)
    };
    let after = state.manage(window, info);
    lemma_admitted_wf(state, grown, window);
    let front = info.transient_for is None && state.layout == LAYOUTS::MONOCLE;
    let place = if front {
        0
    } else {
        n
    };
    lemma_index_of(after, window, place);
    assert forall|other: Window| state.is_client(other) implies after.is_client(other) by {
        let k = state.windows().index_of(other);
        if front {
            assert(after.windows()[k + 1] == other);
        } else {
            assert(after.windows()[k] == other);
        }
    }
}

/// In a registry that holds no window twice, a window found at a place is
/// a client, and that place is its only one.
pub proof fn lemma_index_of(state: State, window: Window, i: int)
    requires
        state.windows().no_duplicates(),
        0 <= i < state.clients.len(),
        state.clients[i].window == window,
    ensures
        state.is_client(window),
        state.index_of(window) == i,
        state.client_of(window) == state.clients[i],
{
    assert(state.windows()[i] == window);
}

/// A window that is no client is at no place of the registry.
pub proof fn lemma_not_client(state: State, window: Window)
    requires
        !state.is_client(window),
    ensures
        forall|i: int|
            0 <= i < state.clients.len() ==> (#[trigger] state.clients[i]).window != window,
{
    assert forall|i: int| 0 <= i < state.clients.len() implies (#[trigger] state.clients[i]).window
        != window by {
        assert(state.windows()[i] == state.clients[i].window);
    }
}

impl KoanWM {
    /// Looks `window` up in the registry.
    pub fn find_client(&self, window: Window) -> (found: Option<usize>)
        ensures
            match found {
                Some(i) => i < self@.clients.len() && self@.clients[i as int].window == window
                    && self@.is_client(window) && forall|j: int|
                    0 <= j < i ==> (#[trigger] self@.clients[j]).window != window,
                None => !self@.is_client(window),
            },
            self.wf() && found is Some ==> found.unwrap() == self@.index_of(window),
    {
        let mut i: usize = 0;
        while i < self.clients.len()
            invariant
                i <= self@.clients.len(),
                forall|j: int| 0 <= j < i ==> self@.clients[j].window != window,
            decreases self@.clients.len() - i,
        {
            if self.clients[i].window == window {
                assert(self@.windows()[i as int] == window);
                return Some(i);
            }
            i += 1;
        }
        assert(!self@.is_client(window)) by {
            if self@.is_client(window) {
                let j = self@.windows().index_of(window);
                assert(self@.clients[j].window == window);
            }
        }
        None
    }

    /// Whether a window that asks to be shown is to be managed.
    pub fn should_manage_window(&self, window: Window, info: &WindowInfo) -> (manage: bool)
        ensures
            manage == self@.admits(window, *info),
    {
        if self.find_client(window).is_some() {
            return false;
        }
        let wa = match info.attributes {
            Some(wa) => wa,
            None => {
                return false;
            },
        };
        if wa.override_redirect {
            return false;
        }
        if is_auxiliary_window_type(info.window_type, &info.auxiliary_types) {
            return false;
        }
        if wa.width < 1 || wa.height < 1 {
            return false;
        }
        true
    }

    /// Where a window of `width` by `height` goes to be in the middle of
    /// the current monitor.
    pub fn center_window(&self, window: Window, width: i32, height: i32) -> (command: Command)
        requires
            self.wf(),
        ensures
            command == centered(
                self@.monitors[self@.current_monitor as int],
                window,
                width as int,
                height as int,
            ),
    {
        let mon = self.monitors[self.current_monitor];
        let x = mon.x as i64 + (mon.width as i64 - width as i64) / 2;
        let y = mon.y as i64 + (mon.height as i64 - height as i64) / 2;
        Command::Move { window, x: x as i32, y: y as i32 }
    }

    /// Gives the focus to `window`, which must be managed, and makes its
    /// monitor the current one.
    pub fn focus_window(&mut self, window: Window) -> (commands: Vec<Command>)
        requires
            old(self).wf(),
            old(self)@.is_client(window),
        ensures
            final(self).wf(),
            final(self)@ == old(self)@.focus(window),
            commands@ == old(self)@.focus_commands(window),
    {
        let mut commands: Vec<Command> = Vec::new();
        if let Some(old_win) = self.focused {
            if old_win != window {
                commands.push(Command::SetBorderColor { window: old_win, color: Color::Secondary });
            }
        }
        if let Some(i) = self.find_client(window) {
            self.current_monitor = self.clients[i].monitor;
        }
        self.focused = Some(window);
        commands.push(Command::SetInputFocus { window });
        commands.push(Command::Raise { window });
        commands.push(Command::SetBorderColor { window, color: Color::Primary });
        commands.push(Command::UpdateModeline);
        commands
    }

    /// Answers a window that asks to be shown. One that is not admitted is
    /// left alone: nothing changes and nothing is asked of the display
    /// server. A dialog of another window is shown floating in the middle
    /// of the current monitor; any other window is tiled on the current
    /// monitor and takes the focus.
    pub fn manage_window(&mut self, window: Window, info: &WindowInfo) -> (commands: Vec<Command>)
        requires
            old(self).wf(),
        ensures
            final(self).wf(),
            final(self)@ == old(self)@.manage(window, *info),
            commands@ == old(self)@.manage_commands(window, *info),
            !old(self)@.admits(window, *info) ==> final(self)@ == old(self)@ && commands@.len()
                == 0,
    {
        let mut commands: Vec<Command> = Vec::new();
        if !self.should_manage_window(window, info) {
            return commands;
        }
        let mut client = Client { window, monitor: self.current_monitor, is_float: false };
        if let Some(_owner) = info.transient_for {
            commands.push(Command::MapRaised { window });
            commands.push(Command::KeepAbove { window });
            client.is_float = true;
            let attrs = info.attributes.unwrap();
            commands.push(self.center_window(window, attrs.width, attrs.height));
            self.clients.push(client);
            proof {
                self.lemma_fits();
                lemma_admitted_wf(old(self)@, self@, window);
            }
            return commands;
        }
        match self.layout {
            LAYOUTS::MASTER => self.clients.push(client),
            LAYOUTS::MONOCLE => self.clients.insert(0, client),
        }
        proof {
            self.lemma_fits();
            lemma_admitted_wf(old(self)@, self@, window);
        }
        commands.push(Command::SelectInput { window });
        commands.push(Command::SetBorderWidth { window, width: BORDER_WIDTH });
        let placements = self.layout();
        let mut place = place_commands(&placements);
        commands.append(&mut place);
        commands.push(Command::MapRaised { window });
        commands.push(Command::Flush);
        let mut focus = self.focus_window(window);
        commands.append(&mut focus);
        commands
    }
}

/// Admitting a window keeps the state sound.
proof fn lemma_admitted_wf(before: State, after: State, window: Window)
    requires
        before.wf(),
        !before.is_client(window),
        after == before.with_tiled(window) || after == before.with_floating(window),
        after.clients.len() <= usize::MAX,
    ensures
        after.wf(),
        after.is_client(window),
{
    lemma_not_client(before, window);
    let n = before.clients.len() as int;
    let windows = after.windows();
    if after == before.with_tiled(window) && before.layout == LAYOUTS::MONOCLE {
        assert(after.windows()[0] == window);
        assert forall|i: int, j: int|
            0 <= i < windows.len() && 0 <= j < windows.len() && i != j implies windows[i]
            != windows[j] by {
            if i > 0 && j > 0 {
                assert(after.windows()[i] == before.windows()[i - 1]);
                assert(after.windows()[j] == before.windows()[j - 1]);
            }
        }
        if before.focused is Some {
            let f = before.focused.unwrap();
            let k = before.windows().index_of(f);
            assert(after.windows()[k + 1] == f);
        }
    } else {
        assert(after.windows()[n] == window);
        assert forall|i: int, j: int|
            0 <= i < windows.len() && 0 <= j < windows.len() && i != j implies windows[i]
            != windows[j] by {
            if i < n && j < n {
                assert(after.windows()[i] == before.windows()[i]);
                assert(after.windows()[j] == before.windows()[j]);
            }
        }
        if before.focused is Some {
            let f = before.focused.unwrap();
            let k = before.windows().index_of(f);
            assert(after.windows()[k] == f);
        }
    }
}

impl State {
    /// The windows on the current monitor, in registry order, floating or
    /// not.
    pub open spec fn members(self) -> Seq<Window> {
        windows_on(self.clients, self.current_monitor, false)
    }

    /// The place next to `place` in a list of `len`, one step on or one
    /// step back; none past either end.
    pub open spec fn step(place: int, len: int, next: bool) -> Option<int> {
        if next {
            if place + 1 < len {
                Some(place + 1)
            } else {
                None
            }
        } else {
            if place > 0 {
                Some(place - 1)
            } else {
                None
            }
        }
    }

    /// The window the focus moves to when it is cycled: from the focused
    /// window one step through the windows of the current monitor, and no
    /// further at either end; the first of them where the focused window is
    /// none of them; none where the monitor has no window.
    pub open spec fn cycle_target(self, next: bool) -> Option<Window> {
        let members = self.members();
        if members.len() == 0 {
            None
        } else if self.focused matches Some(f) && members.contains(f) {
            match Self::step(members.index_of(self.focused.unwrap()), members.len() as int, next) {
                Some(place) => Some(members[place]),
                None => None,
            }
        } else {
            Some(members[0])
        }
    }

    /// The state after the focus has been cycled.
    pub open spec fn cycle_focus(self, next: bool) -> State {
        match self.cycle_target(next) {
            Some(target) => self.focus(target),
            None => self,
        }
    }

    /// What is asked of the display server when the focus is cycled.
    pub open spec fn cycle_commands(self, next: bool) -> Seq<Command> {
        match self.cycle_target(next) {
            Some(target) => self.focus_commands(target),
            None => Seq::empty(),
        }
    }

    /// The window next to the focused one among the windows of the current
    /// monitor: the first of them where no window is focused, none where
    /// the focused window is none of them or has no neighbour on that side.
    pub open spec fn adjacent_window(self, next: bool) -> Option<Window> {
        let members = self.members();
        if members.len() == 0 {
            None
        } else {
            match self.focused {
                None => Some(members[0]),
                Some(f) => if members.contains(f) {
                    match Self::step(members.index_of(f), members.len() as int, next) {
                        Some(place) => Some(members[place]),
                        None => None,
                    }
                } else {
                    None
                },
            }
        }
    }

    /// The two places of the registry that change hands when the focused
    /// window is swapped with its neighbour on the current monitor: its own
    /// and that of the neighbour. None where no window is focused, where it
    /// is not on the current monitor, or where it has no neighbour on that
    /// side.
    pub open spec fn swap_places(self, next: bool) -> Option<(int, int)> {
        let members = self.members();
        let indices = indices_on(self.clients, self.current_monitor, false);
        if self.focused matches Some(f) && members.contains(f) {
            let place = members.index_of(self.focused.unwrap());
            match Self::step(place, members.len() as int, next) {
                Some(other) => Some((indices[place] as int, indices[other] as int)),
                None => None,
            }
        } else {
            None
        }
    }

    /// The state after the focused window has been swapped with its
    /// neighbour. The focus stays with the window.
    pub open spec fn swap_window(self, next: bool) -> State {
        match self.swap_places(next) {
            Some((a, b)) => State {
                clients: self.clients.update(a, self.clients[b]).update(b, self.clients[a]),
                ..self
            },
            None => self,
        }
    }

    /// What is asked of the display server when the focused window is
    /// swapped with its neighbour.
    pub open spec fn swap_commands(self, next: bool) -> Seq<Command> {
        match self.swap_places(next) {
            Some(_) => place_all(self.swap_window(next).layout()),
            None => Seq::empty(),
        }
    }

    /// The state after the focused window has changed between tiled and
    /// floating. Its place in the registry stays.
    pub open spec fn toggle_float(self) -> State {
        if self.focused matches Some(f) && self.is_client(f) {
            let i = self.index_of(self.focused.unwrap());
            State {
                clients: self.clients.update(
                    i,
                    Client {
                        window: self.clients[i].window,
                        monitor: self.clients[i].monitor,
                        is_float: !self.clients[i].is_float,
                    },
                ),
                ..self
            }
        } else {
            self
        }
    }

    /// What is asked of the display server when the focused window changes
    /// between tiled and floating.
    pub open spec fn toggle_commands(self) -> Seq<Command> {
        if self.focused is Some {
            place_all(self.toggle_float().layout())
        } else {
            Seq::empty()
        }
    }

    /// A side of a floating window after one resize action: 20 more or
    /// less, and never under 50.
    pub open spec fn resized(side: int, increase: bool) -> int {
        let changed = if increase {
            side + 20
        } else {
            side - 20
        };
        if changed > 50 {
            changed
        } else {
            50
        }
    }

    /// The state after a resize action: where the focused window is tiled,
    /// the master's share is stepped.
    pub open spec fn resize_window(self, increase: bool) -> State {
        if self.focused matches Some(f) && self.is_client(f) && !self.client_of(f).is_float {
            self.change_split_ratio(increase)
        } else {
            self
        }
    }

    /// What is asked of the display server on a resize action: a floating
    /// window whose size is known is resized; for a tiled one the windows
    /// are laid out anew.
    pub open spec fn resize_commands(
        self,
        increase: bool,
        geometry: Option<WindowAttributes>,
    ) -> Seq<Command> {
        if self.focused matches Some(f) && self.is_client(f) {
            if self.client_of(self.focused.unwrap()).is_float {
                match geometry {
                    Some(attrs) => seq![
                        Command::Resize {
                            window: self.focused.unwrap(),
                            width: Self::resized(attrs.width as int, increase) as u32,
                            height: Self::resized(attrs.height as int, increase) as u32,
                        },
                    ],
                    None => Seq::empty(),
                }
            } else {
                place_all(self.change_split_ratio(increase).layout())
            }
        } else {
            Seq::empty()
        }
    }
}

/// Among the windows of a monitor none occurs twice, each is a client, and
/// each stands in the registry where `indices_on` says.
pub proof fn lemma_windows_on(state: State, monitor: usize, tiled_only: bool)
    requires
        state.windows().no_duplicates(),
        state.clients.len() <= usize::MAX,
    ensures
        windows_on(state.clients, monitor, tiled_only).no_duplicates(),
        windows_on(state.clients, monitor, tiled_only).len() == indices_on(
            state.clients,
            monitor,
            tiled_only,
        ).len(),
        forall|k: int|
            0 <= k < windows_on(state.clients, monitor, tiled_only).len() ==> {
                let w = #[trigger] windows_on(state.clients, monitor, tiled_only)[k];
                let i = indices_on(state.clients, monitor, tiled_only)[k];
                &&& i < state.clients.len()
                &&& state.clients[i as int].window == w
                &&& selects(state.clients[i as int], monitor, tiled_only)
                &&& state.is_client(w)
                &&& state.index_of(w) == i
            },
{
    let indices = indices_on(state.clients, monitor, tiled_only);
    let windows = windows_on(state.clients, monitor, tiled_only);
    lemma_indices_on(state.clients, monitor, tiled_only);
    assert forall|k: int| 0 <= k < windows.len() implies {
        let w = #[trigger] windows[k];
        let i = indices[k];
        &&& i < state.clients.len()
        &&& state.clients[i as int].window == w
        &&& selects(state.clients[i as int], monitor, tiled_only)
        &&& state.is_client(w)
        &&& state.index_of(w) == i
    } by {
        lemma_index_of(state, windows[k], indices[k] as int);
    }
    assert forall|k: int, l: int|
        0 <= k < windows.len() && 0 <= l < windows.len() && k != l implies windows[k]
        != windows[l] by {}
}

/// A client on a monitor is among the windows of that monitor.
pub proof fn lemma_member(state: State, i: int, tiled_only: bool)
    requires
        state.clients.len() <= usize::MAX,
        0 <= i < state.clients.len(),
        tiled_only ==> !state.clients[i].is_float,
    ensures
        windows_on(state.clients, state.clients[i].monitor, tiled_only).contains(
            state.clients[i].window,
        ),
{
    let monitor = state.clients[i].monitor;
    let indices = indices_on(state.clients, monitor, tiled_only);
    lemma_indices_on(state.clients, monitor, tiled_only);
    let k = choose|k: int| 0 <= k < indices.len() && indices[k] == i as usize;
    assert(windows_on(state.clients, monitor, tiled_only)[k] == state.clients[i].window);
}

/// The place next to `place` in a list of `len`, one step on or one step
/// back; none past either end.
fn step_place(place: usize, len: usize, next: bool) -> (other: Option<usize>)
    requires
        place < len,
    ensures
        match other {
            Some(o) => o < len && State::step(place as int, len as int, next) == Some(o as int),
            None => State::step(place as int, len as int, next) is None,
        },
{
    if next {
        if place + 1 < len {
            Some(place + 1)
        } else {
            None
        }
    } else {
        if place > 0 {
            Some(place - 1)
        } else {
            None
        }
    }
}

impl KoanWM {
    /// Where in `indices`, a list of places of the registry, the client of
    /// `window` is listed.
    fn place_among(&self, indices: &Vec<usize>, window: Window) -> (place: Option<usize>)
        requires
            forall|k: int|
                0 <= k < indices@.len() ==> (#[trigger] indices@[k]) < self@.clients.len(),
        ensures
            match place {
                Some(p) => p < indices@.len() && self@.clients[indices@[p as int] as int].window
                    == window,
                None => forall|k: int|
                    0 <= k < indices@.len() ==> self@.clients[(#[trigger] indices@[k])
                        as int].window != window,
            },
    {
        let mut k: usize = 0;
        while k < indices.len()
            invariant
                k <= indices@.len(),
                forall|j: int|
                    0 <= j < indices@.len() ==> (#[trigger] indices@[j]) < self@.clients.len(),
                forall|j: int|
                    0 <= j < k ==> self@.clients[(#[trigger] indices@[j]) as int].window != window,
            decreases indices@.len() - k,
        {
            if self.clients[indices[k]].window == window {
                return Some(k);
            }
            k += 1;
        }
        None
    }

    /// Where among the windows of the current monitor, whose places in the
    /// registry are `indices`, the focused window stands; nowhere where no
    /// window is focused or the focused window is on another monitor.
    fn focused_place(&self, indices: &Vec<usize>) -> (place: Option<usize>)
        requires
            self.wf(),
            indices@ == indices_on(self@.clients, self@.current_monitor, false),
            forall|k: int|
                0 <= k < indices@.len() ==> (#[trigger] indices@[k]) < self@.clients.len(),
        ensures
            place is Some <==> (self@.focused matches Some(f) && self@.members().contains(f)),
            place matches Some(p) ==> p < indices@.len() && p == self@.members().index_of(
                self@.focused.unwrap(),
            ),
    {
        proof {
            lemma_windows_on(self@, self@.current_monitor, false);
        }
        let ghost members = self@.members();
        let focused = match self.focused {
            Some(w) => w,
            None => {
                return None;
            },
        };
        let place = self.place_among(indices, focused);
        proof {
            match place {
                Some(p) => {
                    assert(members[p as int] == focused);
                },
                None => {
                    if members.contains(focused) {
                        let k = members.index_of(focused);
                        assert(self@.clients[indices@[k] as int].window == members[k]);
                    }
                },
            }
        }
        place
    }

    /// Moves the focus one window on, or one back, among the windows of
    /// the current monitor. At either end of them it stays where it is.
    /// Where the focused window is not one of them, the first of them
    /// takes the focus.
    pub fn cycle_focus(&mut self, next: bool) -> (commands: Vec<Command>)
        requires
            old(self).wf(),
        ensures
            final(self).wf(),
            final(self)@ == old(self)@.cycle_focus(next),
            commands@ == old(self)@.cycle_commands(next),
    {
        let indices = collect_indices(&self.clients, self.current_monitor, false);
        proof {
            lemma_windows_on(self@, self@.current_monitor, false);
        }
        if indices.len() == 0 {
            return Vec::new();
        }
        let target = match self.focused_place(&indices) {
            Some(pos) => match step_place(pos, indices.len(), next) {
                Some(other) => Some(self.clients[indices[other]].window),
                None => None,
            },
            None => Some(self.clients[indices[0]].window),
        };
        match target {
            Some(window) => self.focus_window(window),
            None => Vec::new(),
        }
    }

    /// The window next to the focused one among the windows of the current
    /// monitor.
    pub fn _get_adjacent_window(&self, next: bool) -> (window: Option<Window>)
        requires
            self.wf(),
        ensures
            window == self@.adjacent_window(next),
    {
        let indices = collect_indices(&self.clients, self.current_monitor, false);
        if indices.len() == 0 {
            return None;
        }
        if self.focused.is_none() {
            return Some(self.clients[indices[0]].window);
        }
        let pos = self.focused_place(&indices)?;
        let other = step_place(pos, indices.len(), next)?;
        Some(self.clients[indices[other]].window)
    }

    /// Swaps the focused window with its neighbour among the windows of
    /// the current monitor, and lays the windows out anew. Without such a
    /// neighbour nothing happens.
    pub fn swap_window(&mut self, next: bool) -> (commands: Vec<Command>)
        requires
            old(self).wf(),
        ensures
            final(self).wf(),
            final(self)@ == old(self)@.swap_window(next),
            commands@ == old(self)@.swap_commands(next),
    {
        let monitor_indices = collect_indices(&self.clients, self.current_monitor, false);
        let target = match self.focused_place(&monitor_indices) {
            Some(pos) => match step_place(pos, monitor_indices.len(), next) {
                Some(other) => Some((monitor_indices[pos], monitor_indices[other])),
                None => None,
            },
            None => None,
        };
        let (idx_a, idx_b) = match target {
            Some(places) => places,
            None => {
                return Vec::new();
            },
        };
        let a = self.clients[idx_a];
        let b = self.clients[idx_b];
        self.clients[idx_a] = b;
        self.clients[idx_b] = a;
        proof {
            lemma_swapped_wf(old(self)@, self@, idx_a as int, idx_b as int);
        }
        let placements = self.layout();
        place_commands(&placements)
    }

    /// Changes the focused window from tiled to floating or back, and lays
    /// the windows out anew. Without a focused window nothing happens.
    pub fn toggle_float(&mut self) -> (commands: Vec<Command>)
        requires
            old(self).wf(),
        ensures
            final(self).wf(),
            final(self)@ == old(self)@.toggle_float(),
            commands@ == old(self)@.toggle_commands(),
    {
        let focused = match self.focused {
            Some(w) => w,
            None => {
                return Vec::new();
            },
        };
        if let Some(i) = self.find_client(focused) {
            self.clients[i].is_float = !self.clients[i].is_float;
            proof {
                assert(self@.windows() =~= old(self)@.windows());
            }
        }
        let placements = self.layout();
        place_commands(&placements)
    }

    /// Makes the focused window larger or smaller: a floating one by 20
    /// pixels each way, given its present size in `geometry`, and never
    /// under 50; a tiled one by stepping the master's share.
    pub fn _resize_window(
        &mut self,
        increase: bool,
        geometry: Option<WindowAttributes>,
    ) -> (commands: Vec<Command>)
        requires
            old(self).wf(),
        ensures
            final(self).wf(),
            final(self)@ == old(self)@.resize_window(increase),
            commands@ == old(self)@.resize_commands(increase, geometry),
    {
        let focused = match self.focused {
            Some(w) => w,
            None => {
                return Vec::new();
            },
        };
        let client = match self.find_client(focused) {
            Some(i) => self.clients[i],
            None => {
                return Vec::new();
            },
        };
        if client.is_float {
            let mut commands: Vec<Command> = Vec::new();
            if let Some(attr) = geometry {
                let change: i64 = if increase {
                    20
                } else {
                    -20
                };
                let w = attr.width as i64 + change;
                let h = attr.height as i64 + change;
                let new_w = if w > 50 {
                    w as u32
                } else {
                    50
                };
                let new_h = if h > 50 {
                    h as u32
                } else {
                    50
                };
                commands.push(Command::Resize { window: focused, width: new_w, height: new_h });
            }
            commands
        } else {
            self.change_split_ratio(increase)
        }
    }
}

/// Cycling the focus never leaves the current monitor: the current monitor
/// stays, and the window that takes the focus is on it.
pub proof fn lemma_cycle_stays(state: State, next: bool)
    requires
        state.wf(),
    ensures
        state.cycle_focus(next).wf(),
        state.cycle_focus(next).current_monitor == state.current_monitor,
        state.cycle_focus(next).clients == state.clients,
        state.cycle_target(next) matches Some(target) ==> {
            &&& state.is_client(target)
            &&& state.client_of(target).monitor == state.current_monitor
            &&& state.cycle_focus(next).focused == Some(target)
        },
        state.cycle_target(next) is None ==> state.cycle_focus(next) == state,
{
    lemma_windows_on(state, state.current_monitor, false);
    let members = state.members();
    if state.cycle_target(next) is Some {
        let target = state.cycle_target(next).unwrap();
        if state.focused is Some && members.contains(state.focused.unwrap()) {
            let place = members.index_of(state.focused.unwrap());
            let other = State::step(place, members.len() as int, next).unwrap();
            assert(members[other] == target);
        } else {
            assert(members[0] == target);
        }
    }
}

/// Changing a window between tiled and floating leaves every window at its
/// place in the registry and on its monitor, and doing it twice leaves the
/// state as it was.
pub proof fn lemma_toggle_float(state: State)
    requires
        state.wf(),
    ensures
        state.toggle_float().wf(),
        state.toggle_float().windows() == state.windows(),
        state.toggle_float().focused == state.focused,
        state.toggle_float().toggle_float() == state,
        state.focused matches Some(f) ==> state.toggle_float().client_of(f).is_float
            != state.client_of(f).is_float,
{
    let after = state.toggle_float();
    assert(after.windows() =~= state.windows());
    if state.focused is Some {
        assert(after.toggle_float().clients =~= state.clients);
    }
}

/// Swapping two clients keeps the state sound.
proof fn lemma_swapped_wf(before: State, after: State, a: int, b: int)
    requires
        before.wf(),
        0 <= a < before.clients.len(),
        0 <= b < before.clients.len(),
        after == (State {
            clients: before.clients.update(a, before.clients[b]).update(b, before.clients[a]),
            ..before
        }),
    ensures
        after.wf(),
{
    let swap = |i: int|
        if i == a {
            b
        } else if i == b {
            a
        } else {
            i
        };
    assert forall|i: int| 0 <= i < after.clients.len() implies #[trigger] after.clients[i]
        == before.clients[swap(i)] by {}
    let windows = after.windows();
    assert forall|i: int, j: int|
        0 <= i < windows.len() && 0 <= j < windows.len() && i != j implies windows[i]
        != windows[j] by {
        assert(after.windows()[i] == before.windows()[swap(i)]);
        assert(after.windows()[j] == before.windows()[swap(j)]);
    }
    if before.focused is Some {
        let f = before.focused.unwrap();
        let k = before.windows().index_of(f);
        assert(after.windows()[swap(k)] == f);
    }
}

} // verus!

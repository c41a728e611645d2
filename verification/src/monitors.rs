//! The monitor topology: the rectangles the display is made of, and what
//! happens to the rest of the state when they change.

use vstd::prelude::*;
use crate::command::{place_all, place_commands, Command};
use crate::window::{collect_indices, half, lemma_windows_on, windows_on, Client, Window};
use crate::wm::{KoanWM, State};

verus! {

/// One rectangle of the display, with its place in the topology.
#[derive(Debug, Clone, Copy, PartialEq, Eq, Structural)]
pub struct Monitor {
    pub x: i32,
    pub y: i32,
    pub width: i32,
    pub height: i32,
    pub index: usize,
}

/// A screen rectangle as the multi-monitor extension of the display server
/// reports it.
#[derive(Debug, Clone, Copy, PartialEq, Eq, Structural)]
pub struct ScreenInfo {
    pub x_org: i16,
    pub y_org: i16,
    pub width: i16,
    pub height: i16,
}

impl Monitor {
    /// The coordinates are within what the display protocol can carry, so
    /// that sums of a few of them stay far from the limits of `i32`.
    pub open spec fn in_range(self) -> bool {
        &&& -0x8000 <= self.x <= 0x7fff
        &&& -0x8000 <= self.y <= 0x7fff
        &&& -0x8000 <= self.width <= 0xffff
        &&& -0x8000 <= self.height <= 0xffff
    }

    /// Whether the point lies inside the rectangle.
    pub open spec fn contains_point(self, x: int, y: int) -> bool {
        &&& self.x <= x < self.x + self.width
        &&& self.y <= y < self.y + self.height
    }
}

/// The monitor list built from what the display server reports: one monitor
/// for each reported screen, in order, or a single monitor that spans the
/// root area when no screen is reported.
pub open spec fn topology(screens: Seq<ScreenInfo>, root_width: u16, root_height: u16) -> Seq<
    Monitor,
> {
    if screens.len() == 0 {
        seq![
            Monitor { x: 0, y: 0, width: root_width as i32, height: root_height as i32, index: 0 },
        ]
    } else {
        Seq::new(
            screens.len(),
            |i: int|
                Monitor {
                    x: screens[i].x_org as i32,
                    y: screens[i].y_org as i32,
                    width: screens[i].width as i32,
                    height: screens[i].height as i32,
                    index: i as usize,
                },
        )
    }
}

/// The monitor a client belongs to once only `count` monitors are left: its
/// own while that still exists, the first otherwise.
pub open spec fn rehomed_monitor(monitor: usize, count: int) -> usize {
    if monitor >= count {
        0
    } else {
        monitor
    }
}

/// The registry after the topology has changed to `count` monitors: same
/// clients, same order, every stale monitor assignment replaced by 0.
pub open spec fn rehomed(clients: Seq<Client>, count: int) -> Seq<Client> {
    Seq::new(
        clients.len(),
        |i: int|
            Client {
                window: clients[i].window,
                monitor: rehomed_monitor(clients[i].monitor, count),
                is_float: clients[i].is_float,
            },
    )
}

impl State {
    /// The state after the display server has reported a new topology.
    pub open spec fn refresh(
        self,
        screens: Seq<ScreenInfo>,
        root_width: u16,
        root_height: u16,
    ) -> State {
        let monitors = topology(screens, root_width, root_height);
        State {
            monitors,
            clients: rehomed(self.clients, monitors.len() as int),
            current_monitor: rehomed_monitor(self.current_monitor, monitors.len() as int),
            ..self
        }
    }
}

/// Builds the monitor list from what the display server reports.
pub fn build_topology(screens: &Vec<ScreenInfo>, root_width: u16, root_height: u16) -> (monitors:
    Vec<Monitor>)
    ensures
        monitors@ == topology(screens@, root_width, root_height),
        monitors@.len() >= 1,
        forall|i: int|
            0 <= i < monitors@.len() ==> (#[trigger] monitors@[i]).index == i
                && monitors@[i].in_range(),
{
    let mut monitors: Vec<Monitor> = Vec::new();
    if screens.len() == 0 {
        monitors.push(
            Monitor { x: 0, y: 0, width: root_width as i32, height: root_height as i32, index: 0 },
        );
    } else {
        let mut i: usize = 0;
        while i < screens.len()
            invariant
                i <= screens@.len(),
                screens@.len() > 0,
                monitors@ == topology(screens@, root_width, root_height).take(i as int),
            decreases screens@.len() - i,
        {
            let screen = screens[i];
            monitors.push(
                Monitor {
                    x: screen.x_org as i32,
                    y: screen.y_org as i32,
                    width: screen.width as i32,
                    height: screen.height as i32,
                    index: i,
                },
            );
            i += 1;
        }
    }
    monitors
}

impl KoanWM {
    /// Replaces the monitor list by what the display server now reports: one
    /// monitor for each screen of `screens`, or one that spans the root area
    /// (`root_width` by `root_height`) when `screens` is empty. Clients and
    /// the current monitor that pointed at a monitor which no longer exists
    /// move to monitor 0.
    pub fn update_monitors(&mut self, screens: &Vec<ScreenInfo>, root_width: u16, root_height: u16)
        requires
            old(self).wf(),
        ensures
            final(self).wf(),
            final(self)@ == old(self)@.refresh(screens@, root_width, root_height),
            forall|i: int|
                0 <= i < old(self)@.clients.len() && (#[trigger] old(self)@.clients[i]).monitor
                    >= final(self)@.monitors.len() ==> final(self)@.clients[i].monitor == 0,
    {
        self.monitors = build_topology(screens, root_width, root_height);
        let total_monitors = self.monitors.len();
        let mut i: usize = 0;
        while i < self.clients.len()
            invariant
                i <= self.clients@.len(),
                self.clients@.len() == old(self)@.clients.len(),
                total_monitors == self.monitors@.len(),
                total_monitors >= 1,
                self.monitors@ == topology(screens@, root_width, root_height),
                self.mfact == old(self).mfact,
                self.layout == old(self).layout,
                self.focused == old(self).focused,
                self.current_monitor == old(self).current_monitor,
                self.modelines == old(self).modelines,
                forall|j: int|
                    0 <= j < i ==> #[trigger] self.clients@[j] == rehomed(
                        old(self)@.clients,
                        total_monitors as int,
                    )[j],
                forall|j: int|
                    i <= j < self.clients@.len() ==> #[trigger] self.clients@[j] == old(
                        self,
                    )@.clients[j],
            decreases self.clients@.len() - i,
        {
            if self.clients[i].monitor >= total_monitors {
                self.clients[i].monitor = 0;
            }
            i += 1;
        }
        if self.current_monitor >= total_monitors {
            self.current_monitor = 0;
        }
        proof {
            let next = old(self)@.refresh(screens@, root_width, root_height);
            assert(self@.clients =~= next.clients);
            assert(self@.windows() =~= old(self)@.windows());
        }
    }
}

/// After the topology has changed, no client refers to a monitor that does
/// not exist: one whose monitor was lost is on monitor 0, every other is
/// where it was.
pub proof fn lemma_refresh_rehomes(
    state: State,
    screens: Seq<ScreenInfo>,
    root_width: u16,
    root_height: u16,
    i: int,
)
    requires
        state.wf(),
        0 <= i < state.clients.len(),
    ensures
        ({
            let next = state.refresh(screens, root_width, root_height);
            &&& next.clients.len() == state.clients.len()
            &&& next.clients[i].window == state.clients[i].window
            &&& next.clients[i].monitor < next.monitors.len()
            &&& state.clients[i].monitor >= next.monitors.len() ==> next.clients[i].monitor == 0
            &&& state.clients[i].monitor < next.monitors.len() ==> next.clients[i].monitor
                == state.clients[i].monitor
        }),
{
}

/// The middle of a monitor, where the pointer goes when the monitor takes
/// the focus.
pub open spec fn pointer_target(mon: Monitor) -> Command {
    Command::WarpPointer {
        x: (mon.x + half(mon.width as int)) as i32,
        y: (mon.y + half(mon.height as int)) as i32,
    }
}

impl State {
    /// The state after a monitor has taken the focus: the last of its
    /// windows has the focus, or no window where it has none.
    pub open spec fn focus_monitor(self, index: usize) -> State {
        match self.last_on(index) {
            Some(window) => self.focus(window),
            None => State { focused: None, ..self },
        }
    }

    /// What is asked of the display server when a monitor takes the focus.
    pub open spec fn focus_monitor_commands(self, index: usize) -> Seq<Command> {
        seq![pointer_target(self.monitors[index as int]), Command::Flush] + match self.last_on(
            index,
        ) {
            Some(window) => self.focus_commands(window),
            None => Seq::empty(),
        }
    }

    /// The monitor one step from `monitor`: the next or the one before, or
    /// none where the topology ends.
    pub open spec fn adjacent_monitor(self, monitor: usize, next: bool) -> Option<usize> {
        if next {
            if monitor + 1 < self.monitors.len() {
                Some((monitor + 1) as usize)
            } else {
                None
            }
        } else {
            if monitor > 0 {
                Some((monitor - 1) as usize)
            } else {
                None
            }
        }
    }

    /// The monitor that becomes the current one on a step through the
    /// monitors: the adjacent one, or the current one again at either end.
    pub open spec fn monitor_step(self, next: bool) -> usize {
        match self.adjacent_monitor(self.current_monitor, next) {
            Some(monitor) => monitor,
            None => self.current_monitor,
        }
    }

    /// The state with the adjacent monitor as the current one, before that
    /// monitor takes the focus.
    pub open spec fn stepped(self, next: bool) -> State {
        State { current_monitor: self.monitor_step(next), ..self }
    }

    /// The state after the focus has gone to the next monitor.
    pub open spec fn monitor_next(self) -> State {
        self.stepped(true).focus_monitor(self.monitor_step(true))
    }

    /// The state after the focus has gone to the monitor before.
    pub open spec fn monitor_prev(self) -> State {
        self.stepped(false).focus_monitor(self.monitor_step(false))
    }

    /// What is asked of the display server when the focus goes to an
    /// adjacent monitor.
    pub open spec fn monitor_step_commands(self, next: bool) -> Seq<Command> {
        self.stepped(next).focus_monitor_commands(self.monitor_step(next))
    }

    /// The monitor the focused window moves to, if there is a focused
    /// window and a monitor on that side of its own.
    pub open spec fn move_target(self, next: bool) -> Option<usize> {
        if self.focused matches Some(f) && self.is_client(f) {
            self.adjacent_monitor(self.client_of(self.focused.unwrap()).monitor, next)
        } else {
            None
        }
    }

    /// The state with `window` assigned to `monitor`.
    pub open spec fn reassigned(self, window: Window, monitor: usize) -> State {
        let i = self.index_of(window);
        let client = self.clients[i];
        State {
            clients: self.clients.update(
                i,
                Client { window: client.window, monitor, is_float: client.is_float },
            ),
            ..self
        }
    }

    /// The state after the focused window has been sent to an adjacent
    /// monitor: the window is assigned to it, and the monitor takes the
    /// focus.
    pub open spec fn move_window(self, next: bool) -> State {
        match self.move_target(next) {
            Some(monitor) => self.reassigned(self.focused.unwrap(), monitor).focus_monitor(monitor),
            None => self,
        }
    }

    /// What is asked of the display server when the focused window is sent
    /// to an adjacent monitor.
    pub open spec fn move_window_commands(self, next: bool) -> Seq<Command> {
        if self.focused is None {
            Seq::empty()
        } else {
            (match self.move_target(next) {
                Some(monitor) => self.reassigned(
                    self.focused.unwrap(),
                    monitor,
                ).focus_monitor_commands(monitor),
                None => Seq::empty(),
            }) + place_all(self.move_window(next).layout())
        }
    }
}

impl KoanWM {
    /// The last window on `monitor` in registry order.
    pub fn last_window_on(&self, monitor: usize) -> (window: Option<Window>)
        requires
            self.wf(),
        ensures
            window == self@.last_on(monitor),
            window matches Some(w) ==> self@.is_client(w) && self@.client_of(w).monitor == monitor,
    {
        let indices = collect_indices(&self.clients, monitor, false);
        proof {
            lemma_windows_on(self@, monitor, false);
        }
        let count = indices.len();
        if count == 0 {
            None
        } else {
            Some(self.clients[indices[count - 1]].window)
        }
    }

    /// Gives the focus to a monitor: the pointer goes to its middle, and
    /// the last of its windows takes the focus. Where it has no window,
    /// no window is focused.
    pub fn focus_monitor(&mut self, index: usize) -> (commands: Vec<Command>)
        requires
            old(self).wf(),
            index < old(self)@.monitors.len(),
        ensures
            final(self).wf(),
            final(self)@ == old(self)@.focus_monitor(index),
            commands@ == old(self)@.focus_monitor_commands(index),
    {
        let mon = self.monitors[index];
        let mut commands: Vec<Command> = Vec::new();
        commands.push(
            Command::WarpPointer { x: mon.x + (mon.width / 2), y: mon.y + (mon.height / 2) },
        );
        commands.push(Command::Flush);
        let last_win = self.last_window_on(index);
        if let Some(win) = last_win {
            let mut focus = self.focus_window(win);
            commands.append(&mut focus);
        } else {
            self.focused = None;
        }
        commands
    }

    /// Gives the focus to the next monitor, or to the current one again
    /// where it is the last.
    pub fn monitor_next(&mut self) -> (commands: Vec<Command>)
        requires
            old(self).wf(),
        ensures
            final(self).wf(),
            final(self)@ == old(self)@.monitor_next(),
            commands@ == old(self)@.monitor_step_commands(true),
    {
        let count = self.monitors.len();
        if self.current_monitor + 1 < count {
            self.current_monitor += 1;
        }
        self.focus_monitor(self.current_monitor)
    }

    /// Gives the focus to the monitor before, or to the current one again
    /// where it is the first.
    pub fn monitor_prev(&mut self) -> (commands: Vec<Command>)
        requires
            old(self).wf(),
        ensures
            final(self).wf(),
            final(self)@ == old(self)@.monitor_prev(),
            commands@ == old(self)@.monitor_step_commands(false),
    {
        if self.current_monitor > 0 {
            self.current_monitor -= 1;
        }
        self.focus_monitor(self.current_monitor)
    }

    /// Sends the focused window to the monitor on one side of its own.
    fn move_window_by(&mut self, next: bool) -> (commands: Vec<Command>)
        requires
            old(self).wf(),
        ensures
            final(self).wf(),
            final(self)@ == old(self)@.move_window(next),
            commands@ == old(self)@.move_window_commands(next),
    {
        let mut commands: Vec<Command> = Vec::new();
        let focused = match self.focused {
            Some(w) => w,
            None => {
                return commands;
            },
        };
        let monitor_count = self.monitors.len();
        if let Some(i) = self.find_client(focused) {
            let idx = self.clients[i].monitor;
            let target = if next {
                if idx + 1 < monitor_count {
                    Some(idx + 1)
                } else {
                    None
                }
            } else {
                if idx > 0 {
                    Some(idx - 1)
                } else {
                    None
                }
            };
            if let Some(new_idx) = target {
                self.clients[i].monitor = new_idx;
                proof {
                    assert(self@.windows() =~= old(self)@.windows());
                }
                let mut focus = self.focus_monitor(new_idx);
                commands.append(&mut focus);
            }
        }
        let placements = self.layout();
        let mut place = place_commands(&placements);
        commands.append(&mut place);
        commands
    }

    /// Sends the focused window to the next monitor and gives that monitor
    /// the focus; then lays the windows out anew. On the last monitor the
    /// window stays.
    pub fn move_window_next_monitor(&mut self) -> (commands: Vec<Command>)
        requires
            old(self).wf(),
        ensures
            final(self).wf(),
            final(self)@ == old(self)@.move_window(true),
            commands@ == old(self)@.move_window_commands(true),
    {
        self.move_window_by(true)
    }

    /// Sends the focused window to the monitor before and gives that
    /// monitor the focus; then lays the windows out anew. On the first
    /// monitor the window stays.
    pub fn move_window_prev_monitor(&mut self) -> (commands: Vec<Command>)
        requires
            old(self).wf(),
        ensures
            final(self).wf(),
            final(self)@ == old(self)@.move_window(false),
            commands@ == old(self)@.move_window_commands(false),
    {
        self.move_window_by(false)
    }
}

} // verus!

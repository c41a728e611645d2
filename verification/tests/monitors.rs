use koan::command::Command;
use koan::config::Color;
use koan::layouts::Placement;
use koan::monitors::{build_topology, Monitor, ScreenInfo};
use koan::window::{Client, Window, WindowAttributes, WindowInfo};
use koan::wm::KoanWM;

fn screen(x: i16, y: i16, width: i16, height: i16) -> ScreenInfo {
    ScreenInfo { x_org: x, y_org: y, width, height }
}

fn info() -> WindowInfo {
    WindowInfo {
        attributes: Some(WindowAttributes { override_redirect: false, width: 10, height: 10 }),
        window_type: None,
        auxiliary_types: Vec::new(),
        transient_for: None,
    }
}

fn client(window: Window, monitor: usize) -> Client {
    Client { window, monitor, is_float: false }
}

fn three_monitors() -> KoanWM {
    let mut wm = KoanWM::new(
        &vec![screen(0, 0, 1000, 800), screen(1000, 0, 800, 600), screen(1800, 0, 640, 480)],
        0,
        0,
    );
    wm.switch_layout();
    wm
}

#[test]
fn topology_takes_the_screens_in_order() {
    assert_eq!(
        build_topology(&vec![screen(5, 6, 7, 8), screen(-1, -2, -3, -4)], 99, 98),
        vec![
            Monitor { x: 5, y: 6, width: 7, height: 8, index: 0 },
            Monitor { x: -1, y: -2, width: -3, height: -4, index: 1 },
        ]
    );
    assert_eq!(
        build_topology(&Vec::new(), 65535, 0),
        vec![Monitor { x: 0, y: 0, width: 65535, height: 0, index: 0 }]
    );
}

#[test]
fn refresh_sends_clients_of_lost_monitors_to_the_first() {
    let mut wm = three_monitors();
    wm.manage_window(1, &info());
    wm.monitor_next();
    wm.manage_window(2, &info());
    wm.monitor_next();
    wm.manage_window(3, &info());
    assert_eq!(wm.clients, vec![client(1, 0), client(2, 1), client(3, 2)]);
    assert_eq!(wm.current_monitor, 2);

    wm.update_monitors(&vec![screen(0, 0, 1000, 800), screen(1000, 0, 800, 600)], 0, 0);
    assert_eq!(wm.monitors.len(), 2);
    assert_eq!(wm.clients, vec![client(1, 0), client(2, 1), client(3, 0)]);
    assert_eq!(wm.current_monitor, 0);
    assert_eq!(wm.focused, Some(3));
    assert!(wm.is_wf());

    wm.update_monitors(&Vec::new(), 1920, 1080);
    assert_eq!(wm.monitors, vec![Monitor { x: 0, y: 0, width: 1920, height: 1080, index: 0 }]);
    assert_eq!(wm.clients, vec![client(1, 0), client(2, 0), client(3, 0)]);
    assert_eq!(wm.current_monitor, 0);
    assert!(wm.is_wf());
}

#[test]
fn refresh_keeps_clients_of_monitors_that_stay() {
    let mut wm = three_monitors();
    wm.monitor_next();
    wm.manage_window(1, &info());
    wm.update_monitors(
        &vec![
            screen(0, 0, 10, 10),
            screen(10, 0, 10, 10),
            screen(20, 0, 10, 10),
            screen(30, 0, 10, 10),
        ],
        0,
        0,
    );
    assert_eq!(wm.monitors.len(), 4);
    assert_eq!(wm.clients, vec![client(1, 1)]);
    assert_eq!(wm.current_monitor, 1);
    assert!(wm.is_wf());
}

#[test]
fn focus_monitor_warps_the_pointer_and_focuses_the_last_window() {
    let mut wm = three_monitors();
    wm.manage_window(1, &info());
    wm.manage_window(2, &info());
    wm.focus_window(1);
    let commands = wm.focus_monitor(0);
    assert_eq!(
        commands,
        vec![
            Command::WarpPointer { x: 500, y: 400 },
            Command::Flush,
            Command::SetBorderColor { window: 1, color: Color::Secondary },
            Command::SetInputFocus { window: 2 },
            Command::Raise { window: 2 },
            Command::SetBorderColor { window: 2, color: Color::Primary },
            Command::UpdateModeline,
        ]
    );
    assert_eq!(wm.focused, Some(2));
    let commands = wm.focus_monitor(1);
    assert_eq!(commands, vec![Command::WarpPointer { x: 1400, y: 300 }, Command::Flush]);
    assert_eq!(wm.focused, None);
    assert!(wm.is_wf());
}

#[test]
fn monitor_next_and_prev_stop_at_the_ends() {
    let mut wm = three_monitors();
    assert_eq!(wm.current_monitor, 0);
    wm.monitor_prev();
    assert_eq!(wm.current_monitor, 0);
    wm.monitor_next();
    assert_eq!(wm.current_monitor, 1);
    wm.monitor_next();
    assert_eq!(wm.current_monitor, 2);
    let commands = wm.monitor_next();
    assert_eq!(wm.current_monitor, 2);
    assert_eq!(commands, vec![Command::WarpPointer { x: 2120, y: 240 }, Command::Flush]);
    wm.monitor_prev();
    assert_eq!(wm.current_monitor, 1);
}

#[test]
fn last_window_on_a_monitor() {
    let mut wm = three_monitors();
    assert_eq!(wm.last_window_on(0), None);
    wm.manage_window(1, &info());
    wm.manage_window(2, &info());
    assert_eq!(wm.last_window_on(0), Some(2));
    assert_eq!(wm.last_window_on(1), None);
    assert_eq!(wm.last_window_on(7), None);
}

#[test]
fn move_window_to_the_next_monitor() {
    let mut wm = three_monitors();
    wm.manage_window(1, &info());
    wm.manage_window(2, &info());
    wm.focus_window(1);
    let commands = wm.move_window_next_monitor();
    assert_eq!(wm.clients, vec![client(1, 1), client(2, 0)]);
    assert_eq!(wm.current_monitor, 1);
    assert_eq!(wm.focused, Some(1));
    assert_eq!(
        commands,
        vec![
            Command::WarpPointer { x: 1400, y: 300 },
            Command::Flush,
            Command::SetInputFocus { window: 1 },
            Command::Raise { window: 1 },
            Command::SetBorderColor { window: 1, color: Color::Primary },
            Command::UpdateModeline,
            Command::Place(Placement { window: 2, x: 4, y: 14, width: 990, height: 780 }),
            Command::Place(Placement { window: 1, x: 1004, y: 14, width: 790, height: 580 }),
        ]
    );
    wm.move_window_next_monitor();
    assert_eq!(wm.clients, vec![client(1, 2), client(2, 0)]);
    // on the last monitor the window stays, and only the layout is renewed
    let commands = wm.move_window_next_monitor();
    assert_eq!(wm.clients, vec![client(1, 2), client(2, 0)]);
    assert_eq!(
        commands,
        vec![
            Command::Place(Placement { window: 2, x: 4, y: 14, width: 990, height: 780 }),
            Command::Place(Placement { window: 1, x: 1804, y: 14, width: 630, height: 460 }),
        ]
    );
    assert!(wm.is_wf());
}

#[test]
fn move_window_to_the_monitor_before() {
    let mut wm = three_monitors();
    wm.monitor_next();
    wm.manage_window(1, &info());
    wm.manage_window(2, &info());
    wm.focus_window(1);
    wm.move_window_prev_monitor();
    assert_eq!(wm.clients, vec![client(1, 0), client(2, 1)]);
    assert_eq!(wm.current_monitor, 0);
    assert_eq!(wm.focused, Some(1));
    wm.move_window_prev_monitor();
    assert_eq!(wm.clients, vec![client(1, 0), client(2, 1)]);
    wm.focused = None;
    assert!(wm.move_window_prev_monitor().is_empty());
    assert!(wm.move_window_next_monitor().is_empty());
}

#[test]
fn moved_window_gives_the_focus_to_the_last_window_of_its_new_monitor() {
    let mut wm = three_monitors();
    wm.manage_window(1, &info());
    wm.monitor_next();
    wm.manage_window(2, &info());
    wm.focus_window(1);
    // registry order: 1 (monitor 0), 2 (1); window 1 joins monitor 1, whose last window is 2
    wm.move_window_next_monitor();
    assert_eq!(wm.clients, vec![client(1, 1), client(2, 1)]);
    assert_eq!(wm.focused, Some(2));
    assert_eq!(wm.current_monitor, 1);
}

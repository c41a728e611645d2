use koan::command::Command;
use koan::config::Color;
use koan::layouts::{Placement, LAYOUTS};
use koan::monitors::{Monitor, ScreenInfo};
use koan::window::{
    auxiliary_type_names, is_auxiliary_window_type, Client, Window, WindowAttributes, WindowInfo,
};
use koan::wm::KoanWM;

fn screen(x: i16, y: i16, width: i16, height: i16) -> ScreenInfo {
    ScreenInfo { x_org: x, y_org: y, width, height }
}

fn info(width: i32, height: i32) -> WindowInfo {
    WindowInfo {
        attributes: Some(WindowAttributes { override_redirect: false, width, height }),
        window_type: None,
        auxiliary_types: vec![301, 302, 303, 304, 305, 306, 307, 308, 309],
        transient_for: None,
    }
}

fn client(window: Window, monitor: usize, is_float: bool) -> Client {
    Client { window, monitor, is_float }
}

fn focus_commands(window: Window) -> Vec<Command> {
    vec![
        Command::SetInputFocus { window },
        Command::Raise { window },
        Command::SetBorderColor { window, color: Color::Primary },
        Command::UpdateModeline,
    ]
}

fn two_monitors() -> KoanWM {
    KoanWM::new(&vec![screen(0, 0, 1000, 800), screen(1000, 0, 800, 600)], 0, 0)
}

#[test]
fn new_without_screens_spans_the_root_area() {
    let wm = KoanWM::new(&Vec::new(), 1920, 1080);
    assert_eq!(wm.monitors, vec![Monitor { x: 0, y: 0, width: 1920, height: 1080, index: 0 }]);
    assert_eq!(wm.current_monitor, 0);
    assert_eq!(wm.mfact, 50);
    assert_eq!(wm.layout, LAYOUTS::MONOCLE);
    assert!(wm.clients.is_empty());
    assert_eq!(wm.focused, None);
    assert!(wm.modelines.is_empty());
    assert!(wm.is_wf());
}

#[test]
fn new_with_screens_numbers_the_monitors() {
    let wm = KoanWM::new(&vec![screen(0, 0, 1000, 800), screen(1000, -20, 800, 600)], 5000, 4000);
    assert_eq!(
        wm.monitors,
        vec![
            Monitor { x: 0, y: 0, width: 1000, height: 800, index: 0 },
            Monitor { x: 1000, y: -20, width: 800, height: 600, index: 1 },
        ]
    );
    assert!(wm.is_wf());
}

#[test]
fn window_without_size_is_not_admitted() {
    let mut wm = KoanWM::new(&Vec::new(), 1920, 1080);
    wm.manage_window(1, &info(800, 600));
    for (w, h) in [(0, 600), (800, 0), (0, 0), (-1, 5), (5, -1), (i32::MIN, i32::MIN)] {
        assert!(!wm.should_manage_window(2, &info(w, h)));
        let commands = wm.manage_window(2, &info(w, h));
        assert!(commands.is_empty());
        assert_eq!(wm.clients, vec![client(1, 0, false)]);
        assert_eq!(wm.focused, Some(1));
    }
    assert!(wm.should_manage_window(2, &info(1, 1)));
}

#[test]
fn window_already_managed_is_not_admitted_twice() {
    let mut wm = KoanWM::new(&Vec::new(), 1920, 1080);
    wm.manage_window(1, &info(800, 600));
    assert!(!wm.should_manage_window(1, &info(800, 600)));
    let commands = wm.manage_window(1, &info(800, 600));
    assert!(commands.is_empty());
    assert_eq!(wm.clients.len(), 1);
}

#[test]
fn window_that_places_itself_is_not_admitted() {
    let mut wm = KoanWM::new(&Vec::new(), 1920, 1080);
    let mut i = info(800, 600);
    i.attributes = Some(WindowAttributes { override_redirect: true, width: 800, height: 600 });
    assert!(!wm.should_manage_window(1, &i));
    assert!(wm.manage_window(1, &i).is_empty());
    assert!(wm.clients.is_empty());
    assert_eq!(wm.focused, None);
}

#[test]
fn window_whose_attributes_cannot_be_read_is_not_admitted() {
    let mut wm = KoanWM::new(&Vec::new(), 1920, 1080);
    let mut i = info(800, 600);
    i.attributes = None;
    assert!(!wm.should_manage_window(1, &i));
    assert!(wm.manage_window(1, &i).is_empty());
    assert!(wm.clients.is_empty());
}

#[test]
fn auxiliary_windows_are_not_admitted() {
    let mut wm = KoanWM::new(&Vec::new(), 1920, 1080);
    for kind in 301..=309 {
        let mut i = info(800, 600);
        i.window_type = Some(kind);
        assert!(!wm.should_manage_window(1, &i));
        assert!(wm.manage_window(1, &i).is_empty());
        assert!(wm.clients.is_empty());
    }
    let mut i = info(800, 600);
    i.window_type = Some(300);
    assert!(wm.should_manage_window(1, &i));
    wm.manage_window(1, &i);
    assert_eq!(wm.clients, vec![client(1, 0, false)]);
}

#[test]
fn auxiliary_window_types_are_those_listed() {
    assert!(!is_auxiliary_window_type(None, &vec![1, 2, 3]));
    assert!(!is_auxiliary_window_type(Some(4), &vec![1, 2, 3]));
    assert!(!is_auxiliary_window_type(Some(4), &Vec::new()));
    assert!(is_auxiliary_window_type(Some(1), &vec![1, 2, 3]));
    assert!(is_auxiliary_window_type(Some(3), &vec![1, 2, 3]));
    assert_eq!(
        auxiliary_type_names(),
        vec![
            "_NET_WM_WINDOW_TYPE_SPLASH",
            "_NET_WM_WINDOW_TYPE_TOOLBAR",
            "_NET_WM_WINDOW_TYPE_MENU",
            "_NET_WM_WINDOW_TYPE_DROPDOWN_MENU",
            "_NET_WM_WINDOW_TYPE_POPUP_MENU",
            "_NET_WM_WINDOW_TYPE_TOOLTIP",
            "_NET_WM_WINDOW_TYPE_NOTIFICATION",
            "_NET_WM_WINDOW_TYPE_COMBO",
            "_NET_WM_WINDOW_TYPE_DND",
        ]
    );
}

#[test]
fn new_window_goes_to_the_front_in_monocle_and_to_the_end_in_master() {
    let mut wm = KoanWM::new(&Vec::new(), 1920, 1080);
    wm.manage_window(1, &info(10, 10));
    wm.manage_window(2, &info(10, 10));
    assert_eq!(wm.clients, vec![client(2, 0, false), client(1, 0, false)]);
    wm.switch_layout();
    wm.manage_window(3, &info(10, 10));
    assert_eq!(wm.clients, vec![client(2, 0, false), client(1, 0, false), client(3, 0, false)]);
    assert_eq!(wm.focused, Some(3));
    assert!(wm.is_wf());
}

#[test]
fn map_window_then_dialog_on_single_monitor() {
    let mut wm = KoanWM::new(&Vec::new(), 1920, 1080);
    let a: Window = 0x400001;
    let b: Window = 0x400002;
    let rect = Placement { window: a, x: 4, y: 14, width: 1910, height: 1060 };
    let commands = wm.manage_window(a, &info(800, 600));
    let mut expected = vec![
        Command::SelectInput { window: a },
        Command::SetBorderWidth { window: a, width: 1 },
        Command::Place(rect),
        Command::MapRaised { window: a },
        Command::Flush,
    ];
    expected.extend(focus_commands(a));
    assert_eq!(commands, expected);
    assert_eq!(wm.clients, vec![client(a, 0, false)]);
    assert_eq!(wm.focused, Some(a));

    let mut dialog = info(400, 300);
    dialog.transient_for = Some(a);
    let commands = wm.manage_window(b, &dialog);
    assert_eq!(
        commands,
        vec![
            Command::MapRaised { window: b },
            Command::KeepAbove { window: b },
            Command::Move { window: b, x: 760, y: 390 },
        ]
    );
    assert_eq!(wm.clients, vec![client(a, 0, false), client(b, 0, true)]);
    // a dialog leaves the focus where it is
    assert_eq!(wm.focused, Some(a));
    assert_eq!(wm.layout(), vec![rect]);
    assert!(wm.is_wf());
}

#[test]
fn dialog_larger_than_the_monitor_is_centered_too() {
    let wm = KoanWM::new(&vec![screen(100, 50, 800, 600)], 0, 0);
    assert_eq!(wm.center_window(9, 400, 200), Command::Move { window: 9, x: 300, y: 250 });
    // halves are rounded toward zero
    assert_eq!(wm.center_window(9, 801, 603), Command::Move { window: 9, x: 100, y: 49 });
    assert_eq!(wm.center_window(9, 1001, 1001), Command::Move { window: 9, x: 0, y: -150 });
    assert_eq!(
        wm.center_window(9, i32::MAX, i32::MIN),
        Command::Move { window: 9, x: 100 - 1073741423, y: 50 + 1073742124 }
    );
}

#[test]
fn focus_window_recolours_the_window_that_had_the_focus() {
    let mut wm = two_monitors();
    wm.switch_layout();
    wm.manage_window(1, &info(10, 10));
    wm.manage_window(2, &info(10, 10));
    assert_eq!(wm.focused, Some(2));
    let commands = wm.focus_window(1);
    let mut expected = vec![Command::SetBorderColor { window: 2, color: Color::Secondary }];
    expected.extend(focus_commands(1));
    assert_eq!(commands, expected);
    assert_eq!(wm.focused, Some(1));
    // focusing the focused window again recolours nothing else
    assert_eq!(wm.focus_window(1), focus_commands(1));
    assert_eq!(wm.focused, Some(1));
}

#[test]
fn focus_window_makes_the_windows_monitor_current() {
    let mut wm = two_monitors();
    wm.manage_window(1, &info(10, 10));
    wm.monitor_next();
    wm.manage_window(2, &info(10, 10));
    assert_eq!(wm.current_monitor, 1);
    wm.focus_window(1);
    assert_eq!(wm.current_monitor, 0);
    assert_eq!(wm.focused, Some(1));
    assert!(wm.is_wf());
}

#[test]
fn removing_the_only_window_of_a_monitor_leaves_no_focus() {
    let mut wm = KoanWM::new(&Vec::new(), 1920, 1080);
    wm.manage_window(1, &info(10, 10));
    assert_eq!(wm.focused, Some(1));
    let commands = wm.handle_unmap(1);
    assert!(commands.is_empty());
    assert!(wm.clients.is_empty());
    assert_eq!(wm.focused, None);
    assert!(wm.is_wf());
}

#[test]
fn removing_the_focused_window_focuses_the_last_sibling() {
    let mut wm = KoanWM::new(&vec![screen(0, 0, 1000, 800)], 0, 0);
    wm.switch_layout();
    wm.manage_window(1, &info(10, 10));
    wm.manage_window(2, &info(10, 10));
    wm.manage_window(3, &info(10, 10));
    assert_eq!(wm.focused, Some(3));
    let commands = wm.handle_unmap(3);
    let mut expected = focus_commands(2);
    expected.push(Command::Place(Placement { window: 1, x: 4, y: 14, width: 490, height: 780 }));
    expected.push(Command::Place(Placement { window: 2, x: 502, y: 14, width: 492, height: 780 }));
    assert_eq!(commands, expected);
    assert_eq!(wm.clients, vec![client(1, 0, false), client(2, 0, false)]);
    assert_eq!(wm.focused, Some(2));
    assert!(wm.is_wf());
}

#[test]
fn removing_the_focused_window_never_focuses_another_monitor() {
    let mut wm = two_monitors();
    wm.manage_window(1, &info(10, 10));
    wm.manage_window(2, &info(10, 10));
    wm.monitor_next();
    wm.manage_window(3, &info(10, 10));
    assert_eq!(wm.focused, Some(3));
    assert_eq!(wm.clients[0], client(3, 1, false));
    wm.handle_unmap(3);
    assert_eq!(wm.focused, None);
    assert_eq!(wm.clients, vec![client(2, 0, false), client(1, 0, false)]);
    assert!(wm.is_wf());
}

#[test]
fn removing_the_focused_window_picks_a_sibling_of_its_monitor() {
    let mut wm = two_monitors();
    wm.switch_layout();
    wm.manage_window(1, &info(10, 10));
    wm.monitor_next();
    wm.manage_window(2, &info(10, 10));
    wm.manage_window(3, &info(10, 10));
    wm.monitor_prev();
    wm.manage_window(4, &info(10, 10));
    wm.focus_window(3);
    // registry order: 1 (monitor 0), 2 (1), 3 (1), 4 (0)
    wm.handle_unmap(3);
    assert_eq!(wm.focused, Some(2));
    assert_eq!(wm.current_monitor, 1);
    assert!(wm.is_wf());
}

#[test]
fn removing_a_window_without_focus_keeps_the_focus() {
    let mut wm = KoanWM::new(&vec![screen(0, 0, 1000, 800)], 0, 0);
    wm.switch_layout();
    wm.manage_window(1, &info(10, 10));
    wm.manage_window(2, &info(10, 10));
    let commands = wm.handle_unmap(1);
    assert_eq!(
        commands,
        vec![Command::Place(Placement { window: 2, x: 4, y: 14, width: 990, height: 780 })]
    );
    assert_eq!(wm.focused, Some(2));
    assert_eq!(wm.clients, vec![client(2, 0, false)]);
}

#[test]
fn removing_an_unknown_window_changes_nothing() {
    let mut wm = KoanWM::new(&vec![screen(0, 0, 1000, 800)], 0, 0);
    wm.manage_window(1, &info(10, 10));
    let commands = wm.handle_unmap(77);
    assert!(commands.is_empty());
    assert_eq!(wm.clients, vec![client(1, 0, false)]);
    assert_eq!(wm.focused, Some(1));
}

#[test]
fn cycle_focus_stops_at_both_ends() {
    let mut wm = KoanWM::new(&vec![screen(0, 0, 1000, 800)], 0, 0);
    wm.switch_layout();
    wm.manage_window(1, &info(10, 10));
    wm.manage_window(2, &info(10, 10));
    wm.manage_window(3, &info(10, 10));
    assert_eq!(wm.focused, Some(3));
    assert!(wm.cycle_focus(true).is_empty());
    assert_eq!(wm.focused, Some(3));
    let commands = wm.cycle_focus(false);
    let mut expected = vec![Command::SetBorderColor { window: 3, color: Color::Secondary }];
    expected.extend(focus_commands(2));
    assert_eq!(commands, expected);
    assert_eq!(wm.focused, Some(2));
    wm.cycle_focus(false);
    assert_eq!(wm.focused, Some(1));
    assert!(wm.cycle_focus(false).is_empty());
    assert_eq!(wm.focused, Some(1));
    wm.cycle_focus(true);
    assert_eq!(wm.focused, Some(2));
    assert!(wm.is_wf());
}

#[test]
fn cycle_focus_takes_the_first_window_when_none_of_the_monitor_is_focused() {
    let mut wm = two_monitors();
    wm.switch_layout();
    wm.manage_window(1, &info(10, 10));
    wm.manage_window(2, &info(10, 10));
    wm.focused = None;
    assert_eq!(wm.cycle_focus(true), focus_commands(1));
    assert_eq!(wm.focused, Some(1));
    wm.focused = None;
    wm.cycle_focus(false);
    assert_eq!(wm.focused, Some(1));
    // the focused window is on the other monitor
    wm.monitor_next();
    wm.manage_window(3, &info(10, 10));
    wm.current_monitor = 0;
    assert_eq!(wm.focused, Some(3));
    wm.cycle_focus(true);
    assert_eq!(wm.focused, Some(1));
    assert_eq!(wm.current_monitor, 0);
}

#[test]
fn cycle_focus_on_an_empty_monitor_does_nothing() {
    let mut wm = two_monitors();
    wm.manage_window(1, &info(10, 10));
    wm.current_monitor = 1;
    assert!(wm.cycle_focus(true).is_empty());
    assert_eq!(wm.focused, Some(1));
    assert_eq!(wm.current_monitor, 1);
}

#[test]
fn cycle_focus_skips_windows_of_other_monitors() {
    let mut wm = two_monitors();
    wm.switch_layout();
    wm.manage_window(1, &info(10, 10));
    wm.monitor_next();
    wm.manage_window(2, &info(10, 10));
    wm.monitor_prev();
    wm.manage_window(3, &info(10, 10));
    // registry order: 1 (monitor 0), 2 (1), 3 (0)
    assert_eq!(wm.focused, Some(3));
    wm.cycle_focus(false);
    assert_eq!(wm.focused, Some(1));
    wm.cycle_focus(true);
    assert_eq!(wm.focused, Some(3));
}

#[test]
fn adjacent_window_of_the_focused_one() {
    let mut wm = two_monitors();
    assert_eq!(wm._get_adjacent_window(true), None);
    wm.switch_layout();
    wm.manage_window(1, &info(10, 10));
    wm.manage_window(2, &info(10, 10));
    wm.manage_window(3, &info(10, 10));
    assert_eq!(wm._get_adjacent_window(true), None);
    assert_eq!(wm._get_adjacent_window(false), Some(2));
    wm.focus_window(1);
    assert_eq!(wm._get_adjacent_window(true), Some(2));
    assert_eq!(wm._get_adjacent_window(false), None);
    wm.focused = None;
    assert_eq!(wm._get_adjacent_window(true), Some(1));
    assert_eq!(wm._get_adjacent_window(false), Some(1));
    // focused window on another monitor: no neighbour here
    wm.monitor_next();
    wm.manage_window(4, &info(10, 10));
    wm.current_monitor = 0;
    assert_eq!(wm._get_adjacent_window(true), None);
}

#[test]
fn swap_window_changes_places_with_the_neighbour() {
    let mut wm = two_monitors();
    wm.switch_layout();
    wm.manage_window(1, &info(10, 10));
    wm.monitor_next();
    wm.manage_window(2, &info(10, 10));
    wm.monitor_prev();
    wm.manage_window(3, &info(10, 10));
    wm.manage_window(4, &info(10, 10));
    wm.focus_window(3);
    // registry order: 1 (monitor 0), 2 (1), 3 (0), 4 (0)
    let commands = wm.swap_window(false);
    assert_eq!(
        wm.clients,
        vec![client(3, 0, false), client(2, 1, false), client(1, 0, false), client(4, 0, false)]
    );
    assert_eq!(wm.focused, Some(3));
    assert_eq!(commands.len(), 4);
    assert_eq!(
        commands[0],
        Command::Place(Placement { window: 3, x: 4, y: 14, width: 490, height: 780 })
    );
    // at the front there is no neighbour before
    assert!(wm.swap_window(false).is_empty());
    wm.swap_window(true);
    wm.swap_window(true);
    assert_eq!(
        wm.clients,
        vec![client(1, 0, false), client(2, 1, false), client(4, 0, false), client(3, 0, false)]
    );
    assert!(wm.swap_window(true).is_empty());
    assert!(wm.is_wf());
}

#[test]
fn swap_window_without_focus_does_nothing() {
    let mut wm = two_monitors();
    wm.manage_window(1, &info(10, 10));
    wm.manage_window(2, &info(10, 10));
    wm.focused = None;
    assert!(wm.swap_window(true).is_empty());
    assert_eq!(wm.clients, vec![client(2, 0, false), client(1, 0, false)]);
}

#[test]
fn toggle_float_flips_the_focused_window_and_keeps_the_order() {
    let mut wm = KoanWM::new(&vec![screen(0, 0, 1000, 800)], 0, 0);
    wm.switch_layout();
    wm.manage_window(1, &info(10, 10));
    wm.manage_window(2, &info(10, 10));
    wm.focus_window(1);
    wm.toggle_float();
    assert_eq!(wm.clients, vec![client(1, 0, true), client(2, 0, false)]);
    assert_eq!(wm.focused, Some(1));
    wm.toggle_float();
    assert_eq!(wm.clients, vec![client(1, 0, false), client(2, 0, false)]);
    wm.focused = None;
    assert!(wm.toggle_float().is_empty());
    assert_eq!(wm.clients, vec![client(1, 0, false), client(2, 0, false)]);
}

#[test]
fn resize_window_resizes_a_floating_window_and_steps_the_ratio_for_a_tiled_one() {
    let mut wm = KoanWM::new(&vec![screen(0, 0, 1000, 800)], 0, 0);
    wm.switch_layout();
    wm.manage_window(1, &info(10, 10));
    let size = |width, height| Some(WindowAttributes { override_redirect: false, width, height });
    let commands = wm._resize_window(true, size(300, 200));
    assert_eq!(wm.mfact, 55);
    assert_eq!(
        commands,
        vec![Command::Place(Placement { window: 1, x: 4, y: 14, width: 990, height: 780 })]
    );
    wm._resize_window(false, None);
    assert_eq!(wm.mfact, 50);
    wm.toggle_float();
    assert_eq!(
        wm._resize_window(true, size(300, 200)),
        vec![Command::Resize { window: 1, width: 320, height: 220 }]
    );
    assert_eq!(
        wm._resize_window(false, size(300, 60)),
        vec![Command::Resize { window: 1, width: 280, height: 50 }]
    );
    assert_eq!(
        wm._resize_window(false, size(-5, i32::MIN)),
        vec![Command::Resize { window: 1, width: 50, height: 50 }]
    );
    assert_eq!(
        wm._resize_window(true, size(i32::MAX, 30)),
        vec![Command::Resize { window: 1, width: 2147483667, height: 50 }]
    );
    assert!(wm._resize_window(true, None).is_empty());
    assert_eq!(wm.mfact, 50);
    wm.focused = None;
    assert!(wm._resize_window(true, size(300, 200)).is_empty());
}

#[test]
fn find_client_gives_the_place_in_the_registry() {
    let mut wm = KoanWM::new(&vec![screen(0, 0, 1000, 800)], 0, 0);
    wm.switch_layout();
    wm.manage_window(10, &info(10, 10));
    wm.manage_window(20, &info(10, 10));
    assert_eq!(wm.find_client(10), Some(0));
    assert_eq!(wm.find_client(20), Some(1));
    assert_eq!(wm.find_client(30), None);
}

#[test]
fn soundness_check_finds_what_is_wrong() {
    let mut wm = two_monitors();
    wm.manage_window(1, &info(10, 10));
    wm.manage_window(2, &info(10, 10));
    assert!(wm.is_wf());
    wm.focused = Some(3);
    assert!(!wm.is_wf());
    wm.focused = Some(2);
    assert!(wm.is_wf());
    wm.clients[0].monitor = 2;
    assert!(!wm.is_wf());
    wm.clients[0].monitor = 1;
    assert!(wm.is_wf());
    wm.clients[1].window = 2;
    assert!(!wm.is_wf());
    wm.clients[1].window = 1;
    wm.current_monitor = 2;
    assert!(!wm.is_wf());
    wm.current_monitor = 1;
    wm.mfact = 9;
    assert!(!wm.is_wf());
    wm.mfact = 91;
    assert!(!wm.is_wf());
    wm.mfact = 90;
    assert!(wm.is_wf());
    wm.monitors[1].index = 0;
    assert!(!wm.is_wf());
    wm.monitors[1].index = 1;
    wm.monitors[1].x = 40000;
    assert!(!wm.is_wf());
    wm.monitors[1].x = 0;
    wm.monitors.clear();
    assert!(!wm.is_wf());
}

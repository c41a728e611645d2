use koan::command::Command;
use koan::modeline::{modules, text_offsets, window_title, Modeline, Module, ModuleType};
use koan::monitors::ScreenInfo;
use koan::utils::{color_channels, is_expected_error, widen_channels, ColorChannels};
use koan::wm::KoanWM;

fn channels(red: u16, green: u16, blue: u16) -> Option<ColorChannels> {
    Some(ColorChannels { red, green, blue })
}

#[test]
fn colours_of_the_window_manager_as_the_display_takes_them() {
    assert_eq!(color_channels("#00ff00"), channels(0, 65535, 0));
    assert_eq!(color_channels("#888888"), channels(34952, 34952, 34952));
    assert_eq!(color_channels("#ff5555"), channels(65535, 21845, 21845));
}

#[test]
fn colours_in_other_notations() {
    assert_eq!(color_channels("red"), channels(65535, 0, 0));
    assert_eq!(color_channels("rgb(0, 0, 255)"), channels(0, 0, 65535));
    assert_eq!(color_channels("#fff"), channels(65535, 65535, 65535));
    assert_eq!(color_channels("#00000000"), channels(0, 0, 0));
    assert_eq!(color_channels("  #010203  "), channels(257, 514, 771));
}

#[test]
fn strings_that_denote_no_colour() {
    assert_eq!(color_channels(""), None);
    assert_eq!(color_channels("#12345"), None);
    assert_eq!(color_channels("#gggggg"), None);
    assert_eq!(color_channels("no such colour"), None);
}

#[test]
fn odd_strings_denote_no_colour_either() {
    for text in ["()", ")(", "(", "#", "é", "#é", "rgb(é)", "rgb(", "rgb()", "ÿÿÿ", "\u{0}"] {
        assert_eq!(color_channels(text), None);
    }
    let long = "rgb(from ".repeat(5000);
    assert_eq!(color_channels(&long), None);
}

#[test]
fn channels_are_widened_to_sixteen_bits() {
    assert_eq!(widen_channels((0, 0, 0, 0)), ColorChannels { red: 0, green: 0, blue: 0 });
    assert_eq!(
        widen_channels((255, 255, 255, 255)),
        ColorChannels { red: 65535, green: 65535, blue: 65535 }
    );
    assert_eq!(
        widen_channels((1, 2, 128, 77)),
        ColorChannels { red: 257, green: 514, blue: 32896 }
    );
}

#[test]
fn expected_errors_of_the_display_server() {
    assert!(is_expected_error(3, 0));
    assert!(is_expected_error(3, 42));
    assert!(is_expected_error(8, 42));
    assert!(!is_expected_error(8, 41));
    assert!(!is_expected_error(2, 42));
    assert!(!is_expected_error(0, 0));
}

#[test]
fn module_texts() {
    let title = Module { kind: ModuleType::WindowTitle };
    assert_eq!(title.get_text("xterm"), "xterm");
    assert_eq!(title.get_text(""), "");
    let custom = Module { kind: ModuleType::Custom("load 0.5".to_string()) };
    assert_eq!(custom.get_text("xterm"), "load 0.5");
}

#[test]
fn clock_shows_date_and_time() {
    let clock = Module { kind: ModuleType::Clock };
    let text = clock.get_text("xterm");
    let bytes = text.as_bytes();
    assert_eq!(bytes.len(), 19);
    for (i, b) in bytes.iter().enumerate() {
        match i {
            4 | 7 => assert_eq!(*b, b'-'),
            10 => assert_eq!(*b, b' '),
            13 | 16 => assert_eq!(*b, b':'),
            _ => assert!(b.is_ascii_digit()),
        }
    }
}

#[test]
fn modules_of_the_bar() {
    let parts = modules();
    assert_eq!(parts.len(), 2);
    assert!(matches!(parts[0].kind, ModuleType::WindowTitle));
    assert!(matches!(parts[1].kind, ModuleType::Clock));
}

#[test]
fn title_of_the_bar() {
    assert_eq!(window_title(None, None), "KoanWM");
    assert_eq!(window_title(None, Some("xterm".to_string())), "KoanWM");
    assert_eq!(window_title(Some(5), Some("xterm".to_string())), "xterm");
    assert_eq!(window_title(Some(5), Some(String::new())), "");
    assert_eq!(window_title(Some(5), None), "No Name");
}

#[test]
fn texts_of_the_bar_follow_each_other() {
    assert_eq!(text_offsets(&Vec::new()), Vec::<i32>::new());
    assert_eq!(text_offsets(&vec![5]), vec![10]);
    assert_eq!(text_offsets(&vec![5, 19, 0, 1]), vec![10, 70, 242, 262]);
}

#[test]
fn texts_of_the_bar_stop_at_the_largest_position() {
    assert_eq!(
        text_offsets(&vec![268435452, 0, usize::MAX, 3]),
        vec![10, 2147483646, i32::MAX, i32::MAX]
    );
    assert_eq!(text_offsets(&vec![268435453, 0]), vec![10, i32::MAX]);
    assert_eq!(text_offsets(&vec![268435457, 0]), vec![10, i32::MAX]);
}

#[test]
fn one_bar_for_every_monitor() {
    let screens = vec![
        ScreenInfo { x_org: 0, y_org: 0, width: 1000, height: 800 },
        ScreenInfo { x_org: 1000, y_org: -30, width: -4, height: 600 },
    ];
    let mut wm = KoanWM::new(&screens, 0, 0);
    wm.register_modeline(11);
    wm.register_modeline(12);
    assert_eq!(wm.modelines, vec![11, 12]);
    assert!(wm.is_modeline(12));
    assert!(!wm.is_modeline(13));
    let commands = wm.create_modeline();
    assert_eq!(
        commands,
        vec![
            Command::CreateModeline(Modeline { x: 0, y: 0, width: 1000, height: 10 }),
            Command::CreateModeline(Modeline { x: 1000, y: -30, width: 0, height: 10 }),
        ]
    );
    assert!(wm.modelines.is_empty());
    assert!(!wm.is_modeline(12));
}

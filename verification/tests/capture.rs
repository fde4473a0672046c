use quickvm::coord::Coord;
use quickvm::emulation::hid_to_key;
use quickvm::event::{Direction, Event, MouseButton};
use quickvm::keymap::{cgkeycode_to_hid, scancode_to_hid};
use quickvm::macos::{
    modifier_flag_mask, on_event, translate, update_cmd_chord, TapEvent, TapKind, FLAG_ALT,
    FLAG_CAPS, FLAG_COMMAND, FLAG_CONTROL, FLAG_SHIFT,
};
use quickvm::windows;
use quickvm::windows::{
    on_key, on_mouse, translate_mouse, KeyDecision, MouseDecision, MouseEvent, MouseOutput,
    WinCapture,
};
use windows_sys::Win32::UI::WindowsAndMessaging as win;

const L: u16 = 0x37;
const R: u16 = 0x36;

fn at(v: f64) -> Coord {
    Coord { bits: v.to_bits() }
}

fn tapped(kind: TapKind) -> TapEvent {
    TapEvent {
        kind,
        keycode: 0,
        flags: 0,
        button: 0,
        wheel_x: 0,
        wheel_y: 0,
        off_x: at(100.0),
        off_y: at(0.0),
        dx: at(0.0),
        dy: at(0.0),
        x: at(0.25),
        y: at(0.75),
    }
}

fn moused(msg: u32) -> MouseEvent {
    MouseEvent { msg, flags: 0, data: 0, x: 10, y: 20, norm_x: at(0.1), norm_y: at(0.2) }
}

#[test]
fn chord_triggers_only_when_both_cmd_down() {
    let mut s = 0u8;
    assert!(!update_cmd_chord(&mut s, L, true));
    assert!(update_cmd_chord(&mut s, R, true));
}

#[test]
fn single_cmd_never_triggers() {
    let mut s = 0u8;
    assert!(!update_cmd_chord(&mut s, L, true));
    assert!(!update_cmd_chord(&mut s, L, true));
    assert!(!update_cmd_chord(&mut s, L, true));
    assert_eq!(s, 0b01);
}

#[test]
fn chord_resets_when_all_cmd_released() {
    let mut s = 0u8;
    update_cmd_chord(&mut s, L, true);
    assert!(!update_cmd_chord(&mut s, L, false));
    assert_eq!(s, 0);
    assert!(!update_cmd_chord(&mut s, R, true));
}

#[test]
fn release_one_while_holding_other_keeps_the_other() {
    let mut s = 0u8;
    update_cmd_chord(&mut s, L, true);
    assert!(update_cmd_chord(&mut s, R, true));
    assert!(!update_cmd_chord(&mut s, L, true));
    assert_eq!(s, 0b10);
}

#[test]
fn non_cmd_modifier_is_ignored() {
    let mut s = 0b01;
    assert!(!update_cmd_chord(&mut s, 0x38, true));
    assert_eq!(s, 0b01);
}

#[test]
fn scancode_letters_and_extended_disambiguation() {
    assert_eq!(scancode_to_hid(0x1E, false), Some(0x04));
    assert_eq!(scancode_to_hid(0x1C, false), Some(0x28));
    assert_eq!(scancode_to_hid(0x1C, true), Some(0x58));
    assert_eq!(scancode_to_hid(0x1D, false), Some(0xE0));
    assert_eq!(scancode_to_hid(0x1D, true), Some(0xE4));
    assert_eq!(scancode_to_hid(0x36, false), Some(0xE5));
    assert_eq!(scancode_to_hid(0xFE, false), None);
}

#[test]
fn fake_lshift_dropped() {
    assert_eq!(scancode_to_hid(0x2A, true), None);
}

#[test]
fn mac_key_codes() {
    assert_eq!(cgkeycode_to_hid(0x00), Some(0x04));
    assert_eq!(cgkeycode_to_hid(0x24), Some(0x28));
    assert_eq!(cgkeycode_to_hid(L), Some(0xE3));
    assert_eq!(cgkeycode_to_hid(R), Some(0xE7));
    assert_eq!(cgkeycode_to_hid(0xFFFF), None);
}

#[test]
fn mac_modifier_flags() {
    assert_eq!(modifier_flag_mask(0x38), Some(FLAG_SHIFT));
    assert_eq!(modifier_flag_mask(0x3E), Some(FLAG_CONTROL));
    assert_eq!(modifier_flag_mask(0x3A), Some(FLAG_ALT));
    assert_eq!(modifier_flag_mask(0x36), Some(FLAG_COMMAND));
    assert_eq!(modifier_flag_mask(0x39), Some(FLAG_CAPS));
    assert_eq!(modifier_flag_mask(0x00), None);
}

#[test]
fn tap_translates_each_kind() {
    let mut outside = tapped(TapKind::MouseMoved);
    outside.x = at(-0.5);
    outside.y = at(1.5);
    assert_eq!(translate(&outside), Some(Event::MotionAbs { x: at(0.0), y: at(1.0) }));
    let mut back = tapped(TapKind::OtherMouseDown);
    back.button = 3;
    assert_eq!(
        translate(&back),
        Some(Event::Button { button: MouseButton::Back, dir: Direction::Press })
    );
    let mut wheel = tapped(TapKind::ScrollWheel);
    wheel.wheel_x = -1;
    wheel.wheel_y = 2;
    assert_eq!(translate(&wheel), Some(Event::Scroll { dx: -120, dy: 240 }));
    let mut shift = tapped(TapKind::FlagsChanged);
    shift.keycode = 0x38;
    shift.flags = FLAG_SHIFT;
    assert_eq!(translate(&shift), Some(Event::Key { usage: 0xE1, dir: Direction::Press }));
    shift.flags = 0;
    assert_eq!(translate(&shift), Some(Event::Key { usage: 0xE1, dir: Direction::Release }));
    let mut unknown = tapped(TapKind::KeyDown);
    unknown.keycode = 0xFFFF;
    assert_eq!(translate(&unknown), None);
    assert_eq!(translate(&tapped(TapKind::Other)), None);
}

#[test]
fn tap_without_a_grab_lets_everything_through() {
    let mut chord = 0;
    let d = on_event(&mut chord, false, &tapped(TapKind::MouseMoved));
    assert_eq!(d.emit, Some(Event::MotionAbs { x: at(0.25), y: at(0.75) }));
    assert!(!d.swallow && !d.warp && !d.release_grab && !d.escape && !d.restart);
}

#[test]
fn tap_pins_the_cursor_under_a_grab() {
    let mut chord = 0;
    let mut moved = tapped(TapKind::LeftMouseDragged);
    moved.dx = at(3.0);
    moved.dy = at(-4.5);
    let d = on_event(&mut chord, true, &moved);
    assert_eq!(d.emit, Some(Event::MotionRel { dx: at(3.0), dy: at(-4.5) }));
    assert!(d.swallow && d.warp);
    moved.off_x = at(-0.49);
    moved.off_y = at(0.25);
    let echo = on_event(&mut chord, true, &moved);
    assert_eq!(echo.emit, None);
    assert!(echo.swallow && !echo.warp);
    let still = on_event(&mut chord, true, &tapped(TapKind::MouseMoved));
    assert_eq!(still.emit, None);
    assert!(still.swallow && still.warp);
    let key = on_event(&mut chord, true, &tapped(TapKind::KeyDown));
    assert_eq!(key.emit, Some(Event::Key { usage: 0x04, dir: Direction::Press }));
    assert!(key.swallow && !key.warp);
}

#[test]
fn tap_escapes_on_the_chord() {
    let mut chord = 0;
    let mut first = tapped(TapKind::FlagsChanged);
    first.keycode = L;
    first.flags = FLAG_COMMAND;
    let d = on_event(&mut chord, true, &first);
    assert!(d.swallow && !d.escape);
    let mut second = first;
    second.keycode = R;
    let d = on_event(&mut chord, true, &second);
    assert!(d.escape && d.release_grab && !d.swallow);
    assert_eq!(d.emit, None);
    assert_eq!(chord, 0);
}

#[test]
fn tap_does_not_escape_without_a_grab() {
    let mut chord = 0;
    let mut first = tapped(TapKind::FlagsChanged);
    first.keycode = L;
    first.flags = FLAG_COMMAND;
    on_event(&mut chord, false, &first);
    assert_eq!(chord, 0b01);
    let mut second = first;
    second.keycode = R;
    let d = on_event(&mut chord, false, &second);
    assert!(!d.escape && !d.release_grab && !d.swallow && !d.warp && !d.restart);
    assert_eq!(d.emit, None);
    assert_eq!(chord, 0);
}

#[test]
fn tap_that_was_stopped() {
    let mut chord = 0;
    let slow = on_event(&mut chord, true, &tapped(TapKind::DisabledByTimeout));
    assert!(slow.restart && !slow.release_grab && !slow.swallow);
    let stopped = on_event(&mut chord, true, &tapped(TapKind::DisabledByUserInput));
    assert!(!stopped.restart && stopped.release_grab && !stopped.swallow && !stopped.escape);
}

#[test]
fn windows_constants_are_those_of_the_system() {
    assert_eq!(windows::WM_KEYDOWN, win::WM_KEYDOWN);
    assert_eq!(windows::WM_KEYUP, win::WM_KEYUP);
    assert_eq!(windows::WM_SYSKEYDOWN, win::WM_SYSKEYDOWN);
    assert_eq!(windows::WM_SYSKEYUP, win::WM_SYSKEYUP);
    assert_eq!(windows::WM_MOUSEMOVE, win::WM_MOUSEMOVE);
    assert_eq!(windows::WM_LBUTTONDOWN, win::WM_LBUTTONDOWN);
    assert_eq!(windows::WM_LBUTTONUP, win::WM_LBUTTONUP);
    assert_eq!(windows::WM_RBUTTONDOWN, win::WM_RBUTTONDOWN);
    assert_eq!(windows::WM_RBUTTONUP, win::WM_RBUTTONUP);
    assert_eq!(windows::WM_MBUTTONDOWN, win::WM_MBUTTONDOWN);
    assert_eq!(windows::WM_MBUTTONUP, win::WM_MBUTTONUP);
    assert_eq!(windows::WM_MOUSEWHEEL, win::WM_MOUSEWHEEL);
    assert_eq!(windows::WM_XBUTTONDOWN, win::WM_XBUTTONDOWN);
    assert_eq!(windows::WM_XBUTTONUP, win::WM_XBUTTONUP);
    assert_eq!(windows::WM_MOUSEHWHEEL, win::WM_MOUSEHWHEEL);
    assert_eq!(windows::XBUTTON1, win::XBUTTON1 as u32);
    assert_eq!(windows::XBUTTON2, win::XBUTTON2 as u32);
    assert_eq!(windows::KEY_EXTENDED, win::LLKHF_EXTENDED);
    assert_eq!(windows::KEY_INJECTED, win::LLKHF_INJECTED);
    assert_eq!(windows::MOUSE_INJECTED, win::LLMHF_INJECTED);
}

#[test]
fn windows_keys() {
    assert_eq!(
        on_key(0, win::WM_KEYDOWN, 0x1E, 0, true),
        KeyDecision {
            emit: Some(Event::Key { usage: 0x04, dir: Direction::Press }),
            swallow: true
        }
    );
    assert_eq!(
        on_key(0, win::WM_SYSKEYUP, 0x1D, win::LLKHF_EXTENDED, false),
        KeyDecision {
            emit: Some(Event::Key { usage: 0xE4, dir: Direction::Release }),
            swallow: false
        }
    );
    // A key that is in no table is still swallowed under a grab.
    assert_eq!(
        on_key(0, win::WM_KEYDOWN, 0xFE, 0, true),
        KeyDecision { emit: None, swallow: true }
    );
    let passed = KeyDecision { emit: None, swallow: false };
    assert_eq!(on_key(-1, win::WM_KEYDOWN, 0x1E, 0, true), passed);
    assert_eq!(on_key(0, win::WM_KEYDOWN, 0x1E, win::LLKHF_INJECTED, true), passed);
    assert_eq!(on_key(0, win::WM_MOUSEMOVE, 0x1E, 0, true), passed);
}

#[test]
fn windows_mouse_buttons_and_wheels() {
    assert_eq!(
        translate_mouse(win::WM_RBUTTONDOWN, 0),
        Some(Event::Button { button: MouseButton::Right, dir: Direction::Press })
    );
    assert_eq!(
        translate_mouse(win::WM_XBUTTONUP, 2 << 16),
        Some(Event::Button { button: MouseButton::Forward, dir: Direction::Release })
    );
    assert_eq!(translate_mouse(win::WM_XBUTTONDOWN, 3 << 16), None);
    assert_eq!(
        translate_mouse(win::WM_MOUSEWHEEL, (-120i16 as u16 as u32) << 16),
        Some(Event::Scroll { dx: 0, dy: -120 })
    );
    assert_eq!(
        translate_mouse(win::WM_MOUSEHWHEEL, 240 << 16),
        Some(Event::Scroll { dx: 240, dy: 0 })
    );
    assert_eq!(translate_mouse(win::WM_TIMER, 0), None);
}

#[test]
fn windows_moves() {
    let center = (960, 540);
    assert_eq!(
        on_mouse(0, &moused(win::WM_MOUSEMOVE), center, false),
        MouseDecision {
            emit: MouseOutput::Event(Event::MotionAbs { x: at(0.1), y: at(0.2) }),
            swallow: false,
            warp: false
        }
    );
    assert_eq!(
        on_mouse(0, &moused(win::WM_MOUSEMOVE), center, true),
        MouseDecision {
            emit: MouseOutput::Displaced { dx: -950, dy: -520 },
            swallow: true,
            warp: true
        }
    );
    let mut echo = moused(win::WM_MOUSEMOVE);
    echo.x = 960;
    echo.y = 540;
    assert_eq!(
        on_mouse(0, &echo, center, true),
        MouseDecision { emit: MouseOutput::Nothing, swallow: true, warp: false }
    );
    let mut injected = moused(win::WM_MOUSEMOVE);
    injected.flags = win::LLMHF_INJECTED;
    let passed = MouseDecision { emit: MouseOutput::Nothing, swallow: false, warp: false };
    assert_eq!(on_mouse(0, &injected, center, true), passed);
    assert_eq!(on_mouse(-1, &moused(win::WM_LBUTTONDOWN), center, true), passed);
    assert_eq!(
        on_mouse(0, &moused(win::WM_LBUTTONDOWN), center, true),
        MouseDecision {
            emit: MouseOutput::Event(Event::Button {
                button: MouseButton::Left,
                dir: Direction::Press
            }),
            swallow: true,
            warp: false
        }
    );
}

#[test]
fn windows_screen_has_at_least_a_pixel() {
    let capture = WinCapture::new(1920, 1080);
    assert_eq!(capture.screen(), (1920, 1080));
    assert_eq!(capture.center(), (960, 540));
    let nothing = WinCapture::new(0, -5);
    assert_eq!(nothing.screen(), (1, 1));
    assert_eq!(nothing.center(), (0, 0));
}

#[test]
fn no_code_stands_for_two_keys() {
    let mut seen = Vec::new();
    for code in 0..=u16::MAX {
        if let Some(usage) = cgkeycode_to_hid(code) {
            assert!(!seen.contains(&usage));
            assert!(hid_to_key(usage).is_some());
            seen.push(usage);
        }
    }
    assert!(seen.len() > 80);
    for extended in [false, true] {
        let mut seen = Vec::new();
        for scan in 0..0x200 {
            if let Some(usage) = scancode_to_hid(scan, extended) {
                assert!(!seen.contains(&usage));
                seen.push(usage);
            }
        }
        assert!(!seen.is_empty());
    }
}

#[test]
fn pause_and_num_lock_as_the_hook_reports_them() {
    assert_eq!(scancode_to_hid(0x45, false), Some(0x48));
    assert_eq!(scancode_to_hid(0x45, true), Some(0x53));
    assert_eq!(scancode_to_hid(0x46, true), Some(0x48));
    assert_eq!(scancode_to_hid(0x54, false), Some(0x46));
}

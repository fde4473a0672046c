use quickvm::tray;
use quickvm::tray::{
    ensure_running, is_running, serve_args, set_tip, wide, Probe, Tray, TrayAction, ID_LOG,
    ID_QUIT, ID_TOGGLE, TIP_LEN, WM_TRAY,
};
use windows_sys::Win32::UI::WindowsAndMessaging as win;

const TASKBAR: u32 = 0xC123;

fn told(tray: &mut Tray, msg: u32, wparam: u32, lparam: u32, probe: Probe) -> Option<Vec<TrayAction>> {
    tray.on_message(msg, wparam, lparam, TASKBAR, probe)
}

#[test]
fn tray_constants_are_those_of_the_system() {
    assert_eq!(tray::WM_DESTROY, win::WM_DESTROY);
    assert_eq!(tray::WM_COMMAND, win::WM_COMMAND);
    assert_eq!(tray::WM_TIMER, win::WM_TIMER);
    assert_eq!(tray::WM_LBUTTONUP, win::WM_LBUTTONUP);
    assert_eq!(tray::WM_RBUTTONUP, win::WM_RBUTTONUP);
    assert_eq!(tray::WM_TRAY, win::WM_APP + 1);
}

#[test]
fn child_that_runs() {
    assert!(is_running(Probe::Alive));
    assert!(!is_running(Probe::Ended));
    assert!(!is_running(Probe::Absent));
    assert_eq!(ensure_running(Probe::Alive), vec![]);
    assert_eq!(ensure_running(Probe::Ended), vec![TrayAction::Spawn]);
    assert_eq!(ensure_running(Probe::Absent), vec![TrayAction::Spawn]);
}

#[test]
fn starting_up() {
    let mut t = Tray::new();
    assert_eq!(
        t.start(Probe::Absent),
        vec![TrayAction::AddIcon, TrayAction::Spawn, TrayAction::UpdateTip]
    );
    assert!(t.desired);
    assert_eq!(t.start_serve(Probe::Alive), vec![]);
    assert_eq!(t.stop_serve(Probe::Alive), vec![TrayAction::Kill]);
    assert!(!t.desired);
    assert_eq!(t.stop_serve(Probe::Absent), vec![]);
}

#[test]
fn watchdog_brings_back_what_died() {
    let mut t = Tray::new();
    t.start_serve(Probe::Absent);
    assert_eq!(told(&mut t, win::WM_TIMER, 1, 0, Probe::Alive), Some(vec![]));
    assert_eq!(
        told(&mut t, win::WM_TIMER, 1, 0, Probe::Ended),
        Some(vec![TrayAction::Spawn, TrayAction::UpdateTip])
    );
    t.stop_serve(Probe::Alive);
    assert_eq!(told(&mut t, win::WM_TIMER, 1, 0, Probe::Absent), Some(vec![]));
}

#[test]
fn menu_toggles() {
    let mut t = Tray::new();
    assert_eq!(
        told(&mut t, win::WM_COMMAND, ID_TOGGLE, 0, Probe::Absent),
        Some(vec![TrayAction::Spawn, TrayAction::UpdateTip])
    );
    assert!(t.desired);
    assert_eq!(
        told(&mut t, WM_TRAY, 0, win::WM_RBUTTONUP, Probe::Alive),
        Some(vec![TrayAction::ShowMenu { stop: true }])
    );
    // The upper half of the parameter does not count.
    assert_eq!(
        told(&mut t, win::WM_COMMAND, ID_TOGGLE + 0x2_0000, 0, Probe::Alive),
        Some(vec![TrayAction::Kill, TrayAction::UpdateTip])
    );
    assert!(!t.desired);
    assert_eq!(
        told(&mut t, WM_TRAY, 0, win::WM_LBUTTONUP + 0x1_0000, Probe::Absent),
        Some(vec![TrayAction::ShowMenu { stop: false }])
    );
    assert_eq!(told(&mut t, WM_TRAY, 0, win::WM_MOUSEMOVE, Probe::Absent), Some(vec![]));
}

#[test]
fn menu_log_and_quit() {
    let mut t = Tray::new();
    assert_eq!(
        told(&mut t, win::WM_COMMAND, ID_LOG, 0, Probe::Absent),
        Some(vec![TrayAction::OpenLog])
    );
    assert_eq!(
        told(&mut t, win::WM_COMMAND, ID_QUIT, 0, Probe::Absent),
        Some(vec![TrayAction::DestroyWindow])
    );
    assert_eq!(told(&mut t, win::WM_COMMAND, 9, 0, Probe::Absent), Some(vec![]));
    assert_eq!(
        told(&mut t, win::WM_DESTROY, 0, 0, Probe::Absent),
        Some(vec![TrayAction::RemoveIcon, TrayAction::Quit])
    );
    assert_eq!(told(&mut t, win::WM_PAINT, 0, 0, Probe::Absent), None);
}

#[test]
fn new_taskbar_gets_the_icon() {
    let mut t = Tray::new();
    assert_eq!(
        told(&mut t, TASKBAR, 0, 0, Probe::Alive),
        Some(vec![TrayAction::AddIcon, TrayAction::UpdateTip])
    );
    assert_eq!(t.on_message(0, 0, 0, 0, Probe::Alive), None);
}

#[test]
fn child_arguments() {
    assert_eq!(serve_args(None, None), vec!["serve", "--bind", "0.0.0.0:7777"]);
    assert_eq!(
        serve_args(Some("127.0.0.1:9".to_string()), Some("C:\\log.txt".to_string())),
        vec!["serve", "--bind", "127.0.0.1:9", "--log-file", "C:\\log.txt"]
    );
}

#[test]
fn wide_text() {
    for text in ["", "QuicKVM", "執行中 🎉", "\u{FFFF}\u{10000}\u{10FFFF}"] {
        let mut expected: Vec<u16> = text.encode_utf16().collect();
        expected.push(0);
        assert_eq!(wide(text), expected);
    }
}

#[test]
fn tooltip_is_cut_to_fit() {
    let short = "QuicKVM serve — 執行中";
    assert_eq!(set_tip(short), wide(short));
    let fits = "x".repeat(127);
    assert_eq!(set_tip(&fits), wide(&fits));
    let long = "x".repeat(300);
    let tip = set_tip(&long);
    assert_eq!(tip.len(), TIP_LEN);
    assert_eq!(tip[126], 'x' as u16);
    assert_eq!(tip[127], 0);
}

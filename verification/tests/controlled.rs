use quickvm::clipboard::Offer;
use quickvm::clipboard_files::FileStamp;
use quickvm::controlled::{Answer, ClipboardStep, Controlled, Incoming};
use quickvm::coord::Coord;
use quickvm::emulation::{hid_to_key, Axis, Emulator, Injection, Key};
use quickvm::event::{Control, Direction, Event, Modifiers, MouseButton};
use quickvm::proto::{Motion, Reliable};

fn norm(v: f64) -> Coord {
    Coord { bits: v.to_bits() }
}

fn press(key: Key) -> Injection {
    Injection::Key { key, dir: Direction::Press }
}

fn release(key: Key) -> Injection {
    Injection::Key { key, dir: Direction::Release }
}

fn input(ev: Event) -> Incoming {
    Incoming::Reliable(Reliable::Input(ev))
}

fn leave() -> Incoming {
    Incoming::Reliable(Reliable::Control(Control::Leave))
}

fn only(inject: Vec<Injection>) -> Answer {
    Answer { inject, clipboard: ClipboardStep::Nothing }
}

#[test]
fn keys_for_usages() {
    assert_eq!(hid_to_key(0x04), Some(Key::Unicode('a')));
    assert_eq!(hid_to_key(0x1D), Some(Key::Unicode('z')));
    assert_eq!(hid_to_key(0x1E), Some(Key::Unicode('1')));
    assert_eq!(hid_to_key(0x27), Some(Key::Unicode('0')));
    assert_eq!(hid_to_key(0x28), Some(Key::Return));
    assert_eq!(hid_to_key(0x31), Some(Key::Unicode('\\')));
    assert_eq!(hid_to_key(0x3A), Some(Key::Function(1)));
    assert_eq!(hid_to_key(0x45), Some(Key::Function(12)));
    assert_eq!(hid_to_key(0xE3), Some(Key::Meta));
    assert_eq!(hid_to_key(0xE5), Some(Key::RShift));
    assert_eq!(hid_to_key(0x00), None);
    assert_eq!(hid_to_key(0xFFFF), None);
}

#[test]
fn scrolling_in_notches() {
    let mut e = Emulator::new();
    assert_eq!(
        e.emit(&Event::Scroll { dx: 240, dy: -130 }),
        vec![
            Injection::Scroll { notches: -1, axis: Axis::Vertical },
            Injection::Scroll { notches: 2, axis: Axis::Horizontal },
        ]
    );
    assert_eq!(
        e.emit(&Event::Scroll { dx: 0, dy: 60 }),
        vec![Injection::Scroll { notches: 0, axis: Axis::Vertical }]
    );
    assert_eq!(e.emit(&Event::Scroll { dx: 0, dy: 0 }), vec![]);
}

#[test]
fn everything_held_is_released() {
    let mut e = Emulator::new();
    e.emit(&Event::Key { usage: 0x04, dir: Direction::Press });
    e.emit(&Event::Key { usage: 0xE1, dir: Direction::Press });
    e.emit(&Event::Key { usage: 0x04, dir: Direction::Press });
    e.emit(&Event::Key { usage: 0x05, dir: Direction::Press });
    e.emit(&Event::Key { usage: 0x05, dir: Direction::Release });
    e.emit(&Event::Key { usage: 0xFFFF, dir: Direction::Press });
    e.emit(&Event::Button { button: MouseButton::Left, dir: Direction::Press });
    assert_eq!(
        e.release_all(),
        vec![
            release(Key::Unicode('a')),
            release(Key::LShift),
            Injection::Button { button: MouseButton::Left, dir: Direction::Release },
        ]
    );
    assert_eq!(e.release_all(), vec![]);
}

#[test]
fn input_is_injected() {
    let mut c = Controlled::new();
    assert_eq!(c.handle(Incoming::Connected), only(vec![]));
    assert_eq!(
        c.handle(Incoming::Motion(Motion { seq: 1, x: norm(0.25), y: norm(0.5) })),
        only(vec![Injection::MoveTo { x: norm(0.25), y: norm(0.5) }])
    );
    assert_eq!(
        c.handle(input(Event::Key { usage: 0x04, dir: Direction::Press })),
        only(vec![press(Key::Unicode('a'))])
    );
    assert_eq!(
        c.handle(input(Event::MotionRel { dx: norm(3.0), dy: norm(4.0) })),
        only(vec![Injection::MoveBy { dx: norm(3.0), dy: norm(4.0) }])
    );
    assert_eq!(
        c.handle(input(Event::Key { usage: 0xFFFF, dir: Direction::Press })),
        only(vec![])
    );
}

#[test]
fn entering_presses_modifiers() {
    let mut c = Controlled::new();
    let enter = |mods: u16| {
        Incoming::Reliable(Reliable::Control(Control::Enter {
            x: norm(0.001),
            y: norm(0.5),
            mods: Modifiers(mods),
        }))
    };
    let moved = Injection::MoveTo { x: norm(0.001), y: norm(0.5) };
    assert_eq!(c.handle(enter(0)), only(vec![moved]));
    assert_eq!(
        c.handle(enter(Modifiers::META | Modifiers::SHIFT)),
        only(vec![moved, press(Key::LShift), press(Key::Meta)])
    );
    assert_eq!(
        c.handle(enter(0xFFFF)),
        only(vec![
            moved,
            press(Key::LControl),
            press(Key::LShift),
            press(Key::Alt),
            press(Key::Meta)
        ])
    );
    assert_eq!(
        c.handle(Incoming::Disconnected).inject,
        vec![
            release(Key::LShift),
            release(Key::Meta),
            release(Key::LControl),
            release(Key::Alt)
        ]
    );
}

#[test]
fn leaving_releases_and_offers() {
    let mut c = Controlled::new();
    c.handle(Incoming::Connected);
    c.handle(input(Event::Key { usage: 0x04, dir: Direction::Press }));
    assert_eq!(
        c.handle(leave()),
        Answer { inject: vec![release(Key::Unicode('a'))], clipboard: ClipboardStep::Offer }
    );
    assert_eq!(
        c.handle(leave()),
        Answer { inject: vec![], clipboard: ClipboardStep::Offer }
    );
}

#[test]
fn nothing_goes_back_without_a_controller() {
    let mut c = Controlled::new();
    assert_eq!(c.handle(leave()), only(vec![]));
    c.handle(Incoming::Connected);
    c.handle(input(Event::Button { button: MouseButton::Middle, dir: Direction::Press }));
    assert_eq!(
        c.handle(Incoming::Disconnected),
        only(vec![Injection::Button { button: MouseButton::Middle, dir: Direction::Release }])
    );
    assert_eq!(c.handle(leave()), only(vec![]));
}

#[test]
fn clipboard_comes_in_and_is_not_echoed() {
    let mut c = Controlled::new();
    c.handle(Incoming::Connected);
    assert_eq!(
        c.handle(Incoming::Reliable(Reliable::Clipboard("pushed".to_string()))),
        Answer { inject: vec![], clipboard: ClipboardStep::WriteText("pushed".to_string()) }
    );
    c.handle(leave());
    assert_eq!(c.offer(&vec![], Some(&"pushed".to_string())), Offer::Nothing);
    assert_eq!(c.offer(&vec![], Some(&"reply".to_string())), Offer::Text);
    assert_eq!(c.offer(&vec![], Some(&"reply".to_string())), Offer::Nothing);
    let files = vec![FileStamp { path: b"/tmp/a".to_vec(), state: None }];
    assert_eq!(
        c.handle(Incoming::Files(files.clone())),
        Answer { inject: vec![], clipboard: ClipboardStep::WriteFiles }
    );
    assert_eq!(c.offer(&files, None), Offer::Nothing);
}

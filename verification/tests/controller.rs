use quickvm::clipboard::Synced;
use quickvm::config::{enter_point, left_remote, Remote, Side, EDGE, FAR_EDGE};
use quickvm::controller::{
    on_link, returned, Action, Controller, LinkAction, LinkEvent, Point, Target,
};
use quickvm::coord::Coord;
use quickvm::event::{update_mods, Control, Direction, Event, Modifiers, MouseButton};
use quickvm::proto::Reliable;

fn pixels(v: f64) -> Coord {
    Coord { bits: v.to_bits() }
}

fn point(x: f64, y: f64) -> Point {
    Point { x: pixels(x), y: pixels(y) }
}

fn screen(side: Side) -> Remote {
    Remote { width: pixels(1920.0), height: pixels(1080.0), side }
}

fn position(x: f64, y: f64) -> Event {
    Event::MotionAbs { x: pixels(x), y: pixels(y) }
}

fn displacement(dx: f64, dy: f64) -> Event {
    Event::MotionRel { dx: pixels(dx), dy: pixels(dy) }
}

fn key(usage: u16, dir: Direction) -> Event {
    Event::Key { usage, dir }
}

#[test]
fn edge_constants() {
    assert_eq!(EDGE, 0.001f64.to_bits());
    assert_eq!(FAR_EDGE, (1.0f64 - 0.001f64).to_bits());
}

#[test]
fn crossing_by_side() {
    let enter = |side, x: f64, y: f64| {
        enter_point(side, pixels(x), pixels(y))
            .map(|(a, b)| (f64::from_bits(a.bits), f64::from_bits(b.bits)))
    };
    assert_eq!(enter(Side::Right, 1.0, 0.3), Some((0.001, 0.3)));
    assert_eq!(enter(Side::Right, 1.0 - 0.001, 0.3), Some((0.001, 0.3)));
    assert_eq!(enter(Side::Right, 0.998, 0.3), None);
    assert_eq!(enter(Side::Left, 0.0, 0.3), Some((1.0 - 0.001, 0.3)));
    assert_eq!(enter(Side::Left, 0.001, 0.3), Some((1.0 - 0.001, 0.3)));
    assert_eq!(enter(Side::Left, 0.002, 0.3), None);
    assert_eq!(enter(Side::Bottom, 0.4, 1.0), Some((0.4, 0.001)));
    assert_eq!(enter(Side::Bottom, 0.4, 0.5), None);
    assert_eq!(enter(Side::Top, 0.4, 0.0), Some((0.4, 1.0 - 0.001)));
    assert_eq!(enter(Side::Top, 0.4, 0.5), None);
    assert_eq!(enter(Side::Right, f64::NAN, 0.3), None);
}

#[test]
fn coming_home_by_side() {
    let left = |side, x: f64, y: f64| {
        left_remote(side, pixels(x), pixels(y), pixels(1920.0), pixels(1080.0))
    };
    assert!(left(Side::Right, -0.1, 5.0));
    assert!(!left(Side::Right, 0.0, 5.0));
    assert!(!left(Side::Right, -0.0, 5.0));
    assert!(!left(Side::Right, 5000.0, -5.0));
    assert!(left(Side::Left, 1920.5, 5.0));
    assert!(!left(Side::Left, 1920.0, 5.0));
    assert!(left(Side::Bottom, 5.0, -1.0));
    assert!(!left(Side::Bottom, -5.0, 0.0));
    assert!(left(Side::Top, 5.0, 1081.0));
    assert!(!left(Side::Top, 5.0, 1080.0));
}

#[test]
fn measurable_screens() {
    assert!(screen(Side::Right).measurable());
    let mut s = screen(Side::Right);
    s.width = pixels(-1.0);
    assert!(!s.measurable());
    s.width = pixels(f64::NAN);
    assert!(!s.measurable());
    s.width = pixels(-0.0);
    assert!(s.measurable());
}

#[test]
fn modifiers_by_key() {
    let mut m = Modifiers::default();
    update_mods(&mut m, 0xE0, Direction::Press);
    update_mods(&mut m, 0xE7, Direction::Press);
    assert_eq!(m, Modifiers(Modifiers::CTRL | Modifiers::META));
    update_mods(&mut m, 0xE5, Direction::Press);
    update_mods(&mut m, 0x04, Direction::Press);
    update_mods(&mut m, 0xE4, Direction::Release);
    assert_eq!(m, Modifiers(Modifiers::SHIFT | Modifiers::META));
    update_mods(&mut m, 0xE2, Direction::Press);
    update_mods(&mut m, 0xE6, Direction::Release);
    assert_eq!(m, Modifiers(Modifiers::SHIFT | Modifiers::META));
}

#[test]
fn nothing_is_sent_while_local() {
    let mut c = Controller::new(screen(Side::Right));
    assert_eq!(c.captured(&position(0.5, 0.5), point(0.0, 0.0)), vec![]);
    assert_eq!(c.captured(&key(0x04, Direction::Press), point(0.0, 0.0)), vec![]);
    assert_eq!(c.captured(&displacement(5.0, 5.0), point(5.0, 5.0)), vec![]);
    assert_eq!(c.captured(&Event::Scroll { dx: 0, dy: 120 }, point(0.0, 0.0)), vec![]);
    let click = Event::Button { button: MouseButton::Left, dir: Direction::Press };
    assert_eq!(c.captured(&click, point(0.0, 0.0)), vec![]);
    assert_eq!(c.tick(), None);
    assert_eq!(c.target, Target::Local);
}

#[test]
fn there_and_back() {
    let mut c = Controller::new(screen(Side::Right));
    assert_eq!(c.captured(&key(0xE1, Direction::Press), point(0.0, 0.0)), vec![]);
    let entered = c.captured(&position(1.0, 0.5), point(1.92, 540.0));
    assert_eq!(
        entered,
        vec![
            Action::SendControl(Control::Enter {
                x: pixels(0.001),
                y: pixels(0.5),
                mods: Modifiers(Modifiers::SHIFT),
            }),
            Action::Grab(true),
            Action::OfferClipboard,
        ]
    );
    assert_eq!(c.target, Target::Remote);
    assert_eq!(c.cursor, point(1.92, 540.0));
    // Positions are coalesced: only the newest is sent.
    assert_eq!(c.captured(&displacement(10.0, 0.0), point(11.92, 540.0)), vec![]);
    assert_eq!(c.captured(&displacement(10.0, 600.0), point(21.92, 1140.0)), vec![]);
    assert_eq!(c.tick(), Some(point(21.92, 1080.0)));
    assert_eq!(c.tick(), None);
    // Keys, buttons and scrolls are forwarded; positions are not.
    let release = key(0xE1, Direction::Release);
    assert_eq!(c.captured(&release, point(0.0, 0.0)), vec![Action::SendInput(release)]);
    assert_eq!(c.mods, Modifiers(0));
    let scroll = Event::Scroll { dx: 0, dy: -120 };
    assert_eq!(c.captured(&scroll, point(0.0, 0.0)), vec![Action::SendInput(scroll)]);
    assert_eq!(c.captured(&position(1.0, 0.5), point(0.0, 0.0)), vec![]);
    // Back over the left edge.
    assert_eq!(c.captured(&displacement(-1.0, 0.0), point(20.92, 1080.0)), vec![]);
    let left = c.captured(&displacement(-30.0, 0.0), point(-9.08, 1080.0));
    assert_eq!(left, vec![Action::SendControl(Control::Leave), Action::Grab(false)]);
    assert_eq!(c.target, Target::Local);
    assert_eq!(c.tick(), None);
}

#[test]
fn cursor_is_kept_on_the_screen() {
    let mut c = Controller::new(screen(Side::Left));
    c.captured(&position(0.0, 0.5), point(1918.08, 540.0));
    assert_eq!(c.captured(&displacement(-5000.0, -5000.0), point(-3081.92, -4460.0)), vec![]);
    assert_eq!(c.tick(), Some(point(0.0, 0.0)));
    assert_eq!(c.target, Target::Remote);
}

#[test]
fn escape_hands_control_back() {
    let mut c = Controller::new(screen(Side::Right));
    assert_eq!(c.escape(), vec![]);
    c.captured(&position(1.0, 0.5), point(1.92, 540.0));
    c.captured(&displacement(10.0, 0.0), point(11.92, 540.0));
    assert_eq!(c.escape(), vec![Action::SendControl(Control::Leave)]);
    assert_eq!(c.target, Target::Local);
    assert_eq!(c.tick(), None);
    assert_eq!(c.escape(), vec![]);
}

#[test]
fn grab_follows_the_target() {
    let mut c = Controller::new(screen(Side::Bottom));
    let mut grabbed = false;
    let script = [
        (position(0.5, 0.2), point(0.0, 0.0)),
        (position(0.5, 1.0), point(960.0, 1.08)),
        (key(4, Direction::Press), point(0.0, 0.0)),
        (displacement(0.0, 5.0), point(960.0, 6.08)),
        (displacement(0.0, -9.0), point(960.0, -2.92)),
        (position(0.5, 0.9), point(0.0, 0.0)),
        (position(0.5, 1.0), point(960.0, 1.08)),
    ];
    for (ev, to) in script {
        for action in c.captured(&ev, to) {
            if let Action::Grab(on) = action {
                grabbed = on;
            }
        }
        assert_eq!(grabbed, c.target == Target::Remote);
    }
    assert!(grabbed);
}

#[test]
fn text_that_is_sent_back() {
    let mut synced = Synced::new();
    assert_eq!(returned(&mut synced, Reliable::Control(Control::Leave)), None);
    assert_eq!(synced.last, None);
    let text = Reliable::Clipboard("theirs".to_string());
    assert_eq!(returned(&mut synced, text), Some("theirs".to_string()));
    assert_eq!(synced.last, Some(quickvm::clipboard_files::fingerprint_text("theirs")));
}

#[test]
fn connections_come_and_go() {
    assert_eq!(on_link(LinkEvent::Connected), vec![LinkAction::Drive]);
    assert_eq!(on_link(LinkEvent::Failed), vec![LinkAction::Wait(2), LinkAction::Connect]);
    assert_eq!(on_link(LinkEvent::Lost), vec![LinkAction::Grab(false), LinkAction::Connect]);
}

#[test]
fn grab_follows_the_target_over_ticks_and_escapes() {
    let mut c = Controller::new(screen(Side::Right));
    let mut grabbed = false;
    for round in 0..4 {
        for action in c.captured(&position(1.0, 0.5), point(1.92, 540.0)) {
            if let Action::Grab(on) = action {
                grabbed = on;
            }
        }
        assert!(grabbed && c.target == Target::Remote);
        c.captured(&displacement(5.0, 0.0), point(6.92, 540.0));
        if round % 2 == 0 {
            assert_eq!(c.tick(), Some(point(6.92, 540.0)));
        }
        // The backend has let go before the escape is taken.
        grabbed = false;
        for action in c.escape() {
            assert_eq!(action, Action::SendControl(Control::Leave));
        }
        assert_eq!(c.target, Target::Local);
        assert_eq!(c.tick(), None);
    }
    assert!(!grabbed);
}

#[test]
fn entering_does_not_bounce() {
    let sizes = [5e-324, 0.3, 1.0, 768.0, 1080.0, 3840.0, 1e300];
    for side in [Side::Left, Side::Right, Side::Top, Side::Bottom] {
        let (x, y) = match side {
            Side::Left => (0.0, 0.4),
            Side::Right => (1.0, 0.4),
            Side::Top => (0.4, 0.0),
            Side::Bottom => (0.4, 1.0),
        };
        let (ex, ey) = enter_point(side, pixels(x), pixels(y)).unwrap();
        for w in sizes {
            for h in sizes {
                let vx = pixels(f64::from_bits(ex.bits) * w);
                let vy = pixels(f64::from_bits(ey.bits) * h);
                assert!(!left_remote(side, vx, vy, pixels(w), pixels(h)));
            }
        }
    }
}

#[test]
fn everything_is_sent_between_enter_and_leave() {
    let mut c = Controller::new(screen(Side::Right));
    let mut entered = false;
    let click = Event::Button { button: MouseButton::Left, dir: Direction::Press };
    let script = [
        (click, point(0.0, 0.0)),
        (position(1.0, 0.5), point(1.92, 540.0)),
        (click, point(0.0, 0.0)),
        (displacement(5.0, 0.0), point(6.92, 540.0)),
        (position(1.0, 0.5), point(0.0, 0.0)),
        (displacement(-9.0, 0.0), point(-2.08, 540.0)),
        (click, point(0.0, 0.0)),
        (position(1.0, 0.1), point(1.92, 108.0)),
        (displacement(-9.0, 0.0), point(-7.08, 108.0)),
    ];
    for (ev, to) in script {
        for action in c.captured(&ev, to) {
            match action {
                Action::SendControl(Control::Enter { .. }) => {
                    assert!(!entered);
                    entered = true;
                }
                Action::SendControl(Control::Leave) => {
                    assert!(entered);
                    entered = false;
                }
                Action::SendInput(ev) => {
                    assert!(entered);
                    assert!(!matches!(ev, Event::MotionAbs { .. } | Event::MotionRel { .. }));
                }
                _ => {}
            }
        }
        assert!(c.tick().is_none() || entered);
    }
    assert!(!entered);
}

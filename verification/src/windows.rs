//! What the low-level hooks of the Windows capture backend do with each event.
//!
//! As on the Mac, a grab swallows local input and pins the cursor to the middle of
//! the screen. Events that some program injected are passed on untouched: capturing
//! them would feed this program its own output.

use crate::coord;
use crate::coord::Coord;
use crate::event::{Direction, Event, MouseButton};
use crate::keymap;
use vstd::prelude::*;

verus! {

/// The window messages that the hooks report.
pub const WM_KEYDOWN: u32 = 0x100;

pub const WM_KEYUP: u32 = 0x101;

pub const WM_SYSKEYDOWN: u32 = 0x104;

pub const WM_SYSKEYUP: u32 = 0x105;

pub const WM_MOUSEMOVE: u32 = 0x200;

pub const WM_LBUTTONDOWN: u32 = 0x201;

pub const WM_LBUTTONUP: u32 = 0x202;

pub const WM_RBUTTONDOWN: u32 = 0x204;

pub const WM_RBUTTONUP: u32 = 0x205;

pub const WM_MBUTTONDOWN: u32 = 0x207;

pub const WM_MBUTTONUP: u32 = 0x208;

pub const WM_MOUSEWHEEL: u32 = 0x20A;

pub const WM_XBUTTONDOWN: u32 = 0x20B;

pub const WM_XBUTTONUP: u32 = 0x20C;

pub const WM_MOUSEHWHEEL: u32 = 0x20E;

/// The two extra mouse buttons, in the upper half of an event's data.
pub const XBUTTON1: u32 = 1;

pub const XBUTTON2: u32 = 2;

/// The flags of a keyboard event: an extended scan code, an injected event.
pub const KEY_EXTENDED: u32 = 0x01;

pub const KEY_INJECTED: u32 = 0x10;

/// The flag of a mouse event that was injected.
pub const MOUSE_INJECTED: u32 = 0x01;

/// The capture backend: the size of the primary screen, in pixels.
#[derive(Debug, Clone, Copy)]
pub struct WinCapture {
    screen: (i32, i32),
}

impl WinCapture {
    /// The width and the height.
    pub closed spec fn size(&self) -> (i32, i32) {
        self.screen
    }

    #[verifier::type_invariant]
    spec fn is_a_screen(&self) -> bool {
        self.screen.0 >= 1 && self.screen.1 >= 1
    }

    /// Takes the size that the system reports; it is at least one pixel each way.
    pub fn new(width: i32, height: i32) -> (r: WinCapture)
        ensures
            r.size().0 == (if width > 1 { width } else { 1 }),
            r.size().1 == (if height > 1 { height } else { 1 }),
    {
        let w: i32 = if width > 1 { width } else { 1 };
        let h: i32 = if height > 1 { height } else { 1 };
        WinCapture { screen: (w, h) }
    }

    /// The size of the screen.
    pub fn screen(&self) -> (r: (i32, i32))
        ensures
            r == self.size(),
            r.0 >= 1,
            r.1 >= 1,
    {
        proof {
            use_type_invariant(self);
        }
        self.screen
    }

    /// The middle of the screen, where a grab pins the cursor.
    pub fn center(&self) -> (r: (i32, i32))
        ensures
            r.0 == self.size().0 as int / 2,
            r.1 == self.size().1 as int / 2,
            0 <= r.0 < self.size().0,
            0 <= r.1 < self.size().1,
    {
        proof {
            use_type_invariant(self);
        }
        (self.screen.0 / 2, self.screen.1 / 2)
    }
}

/// What becomes of a keyboard event.
#[derive(Debug, Clone, Copy, PartialEq)]
pub struct KeyDecision {
    /// The event that goes to the controller.
    pub emit: Option<Event>,
    /// The local machine does not see the event.
    pub swallow: bool,
}

/// The direction of a keyboard message; the system variants come with Alt and F10.
pub open spec fn key_direction(msg: u32) -> Option<Direction> {
    if msg == WM_KEYDOWN || msg == WM_SYSKEYDOWN {
        Some(Direction::Press)
    } else if msg == WM_KEYUP || msg == WM_SYSKEYUP {
        Some(Direction::Release)
    } else {
        None
    }
}

/// The hook handles this event: it is one (`code` is not negative), it is no
/// injection, and it is a key going down or up.
pub open spec fn key_handled(code: i32, msg: u32, flags: u32) -> bool {
    code >= 0 && flags & KEY_INJECTED == 0 && key_direction(msg) is Some
}

/// The key event for this scan code, where the key is known.
pub open spec fn keyed(
    scan: u32,
    extended: bool,
    dir: Option<Direction>,
    out: Option<Event>,
) -> bool {
    match out {
        Some(ev) => ev matches Event::Key { usage, dir: d } && Some(d) == dir
            && keymap::windows_scancode(usage, extended) == Some(scan),
        None => forall|usage: u16| #[trigger]
            keymap::windows_scancode(usage, extended) != Some(scan),
    }
}

/// `d` is what becomes of a keyboard event.
pub open spec fn key_decided(
    code: i32,
    msg: u32,
    scan: u32,
    flags: u32,
    grab: bool,
    d: KeyDecision,
) -> bool {
    if !key_handled(code, msg, flags) {
        d == (KeyDecision { emit: None, swallow: false })
    } else {
        &&& d.swallow == grab
        &&& keyed(scan, flags & KEY_EXTENDED != 0, key_direction(msg), d.emit)
    }
}

/// Decides on one keyboard event.
pub fn on_key(code: i32, msg: u32, scan: u32, flags: u32, grab: bool) -> (d: KeyDecision)
    ensures
        key_decided(code, msg, scan, flags, grab, d),
{
    if code < 0 || flags & KEY_INJECTED != 0 {
        return KeyDecision { emit: None, swallow: false };
    }
    let dir = if msg == WM_KEYDOWN || msg == WM_SYSKEYDOWN {
        Direction::Press
    } else if msg == WM_KEYUP || msg == WM_SYSKEYUP {
        Direction::Release
    } else {
        return KeyDecision { emit: None, swallow: false };
    };
    let emit = match keymap::scancode_to_hid(scan, flags & KEY_EXTENDED != 0) {
        Some(usage) => Some(Event::Key { usage, dir }),
        None => None,
    };
    KeyDecision { emit, swallow: grab }
}

/// A mouse event as the hook sees it.
#[derive(Debug, Clone, Copy, PartialEq)]
pub struct MouseEvent {
    pub msg: u32,
    pub flags: u32,
    /// Which extra button, or how far the wheel turned, in the upper half.
    pub data: u32,
    /// Where the cursor is, in pixels.
    pub x: i32,
    pub y: i32,
    /// Where the cursor is, divided by the size of the screen.
    pub norm_x: Coord,
    pub norm_y: Coord,
}

/// What a mouse event says to the controller.
#[derive(Debug, Clone, Copy, PartialEq)]
pub enum MouseOutput {
    Nothing,
    Event(Event),
    /// A displacement, in pixels.
    Displaced { dx: i64, dy: i64 },
}

/// What becomes of a mouse event.
#[derive(Debug, Clone, Copy, PartialEq)]
pub struct MouseDecision {
    pub emit: MouseOutput,
    /// The local machine does not see the event.
    pub swallow: bool,
    /// Put the cursor back in the middle.
    pub warp: bool,
}

/// The upper half of an event's data, as a signed number.
pub open spec fn signed_half(data: u32) -> int {
    let half = data as int / 0x1_0000;
    if half < 0x8000 {
        half
    } else {
        half - 0x1_0000
    }
}

fn wheel_turn(data: u32) -> (r: i32)
    ensures
        r == signed_half(data),
{
    let half = (data / 0x1_0000) as i32;
    if half < 0x8000 {
        half
    } else {
        half - 0x1_0000
    }
}

/// The extra button that an event's data names.
pub open spec fn extra_button(data: u32) -> Option<MouseButton> {
    if data / 0x1_0000 == XBUTTON1 {
        Some(MouseButton::Back)
    } else if data / 0x1_0000 == XBUTTON2 {
        Some(MouseButton::Forward)
    } else {
        None
    }
}

/// The event that stands for a mouse message other than a movement. A wheel turned
/// away from the user, or to the right, counts up.
pub open spec fn mouse_translated(msg: u32, data: u32) -> Option<Event> {
    if msg == WM_LBUTTONDOWN {
        Some(Event::Button { button: MouseButton::Left, dir: Direction::Press })
    } else if msg == WM_LBUTTONUP {
        Some(Event::Button { button: MouseButton::Left, dir: Direction::Release })
    } else if msg == WM_RBUTTONDOWN {
        Some(Event::Button { button: MouseButton::Right, dir: Direction::Press })
    } else if msg == WM_RBUTTONUP {
        Some(Event::Button { button: MouseButton::Right, dir: Direction::Release })
    } else if msg == WM_MBUTTONDOWN {
        Some(Event::Button { button: MouseButton::Middle, dir: Direction::Press })
    } else if msg == WM_MBUTTONUP {
        Some(Event::Button { button: MouseButton::Middle, dir: Direction::Release })
    } else if msg == WM_XBUTTONDOWN {
        match extra_button(data) {
            Some(button) => Some(Event::Button { button, dir: Direction::Press }),
            None => None,
        }
    } else if msg == WM_XBUTTONUP {
        match extra_button(data) {
            Some(button) => Some(Event::Button { button, dir: Direction::Release }),
            None => None,
        }
    } else if msg == WM_MOUSEWHEEL {
        Some(Event::Scroll { dx: 0, dy: signed_half(data) as i32 })
    } else if msg == WM_MOUSEHWHEEL {
        Some(Event::Scroll { dx: signed_half(data) as i32, dy: 0 })
    } else {
        None
    }
}

/// The event that stands for a mouse message other than a movement; `None` for a
/// message that is none of these.
pub fn translate_mouse(msg: u32, data: u32) -> (r: Option<Event>)
    ensures
        r == mouse_translated(msg, data),
{
    match msg {
        0x201 => Some(Event::Button { button: MouseButton::Left, dir: Direction::Press }),
        0x202 => Some(Event::Button { button: MouseButton::Left, dir: Direction::Release }),
        0x204 => Some(Event::Button { button: MouseButton::Right, dir: Direction::Press }),
        0x205 => Some(Event::Button { button: MouseButton::Right, dir: Direction::Release }),
        0x207 => Some(Event::Button { button: MouseButton::Middle, dir: Direction::Press }),
        0x208 => Some(Event::Button { button: MouseButton::Middle, dir: Direction::Release }),
        0x20B | 0x20C => {
            let button = match data / 0x1_0000 {
                1 => MouseButton::Back,
                2 => MouseButton::Forward,
                _ => return None,
            };
            let dir = if msg == WM_XBUTTONDOWN {
                Direction::Press
            } else {
                Direction::Release
            };
            Some(Event::Button { button, dir })
        },
        0x20A => Some(Event::Scroll { dx: 0, dy: wheel_turn(data) }),
        0x20E => Some(Event::Scroll { dx: wheel_turn(data), dy: 0 }),
        _ => None,
    }
}

/// What becomes of a mouse event; `center` is where a grab pins the cursor.
pub open spec fn mouse_decided(
    code: i32,
    ev: MouseEvent,
    center: (i32, i32),
    grab: bool,
) -> MouseDecision {
    let one = Coord { bits: coord::ONE };
    let zero = Coord { bits: coord::ZERO };
    if code < 0 || ev.flags & MOUSE_INJECTED != 0 {
        MouseDecision { emit: MouseOutput::Nothing, swallow: false, warp: false }
    } else if ev.msg == WM_MOUSEMOVE && grab {
        if (ev.x, ev.y) == center {
            MouseDecision { emit: MouseOutput::Nothing, swallow: true, warp: false }
        } else {
            MouseDecision {
                emit: MouseOutput::Displaced {
                    dx: (ev.x - center.0) as i64,
                    dy: (ev.y - center.1) as i64,
                },
                swallow: true,
                warp: true,
            }
        }
    } else if ev.msg == WM_MOUSEMOVE {
        MouseDecision {
            emit: MouseOutput::Event(
                Event::MotionAbs {
                    x: ev.norm_x.clamped(zero, one),
                    y: ev.norm_y.clamped(zero, one),
                },
            ),
            swallow: false,
            warp: false,
        }
    } else {
        MouseDecision {
            emit: match mouse_translated(ev.msg, ev.data) {
                Some(e) => MouseOutput::Event(e),
                None => MouseOutput::Nothing,
            },
            swallow: grab,
            warp: false,
        }
    }
}

/// Decides on one mouse event.
pub fn on_mouse(code: i32, ev: &MouseEvent, center: (i32, i32), grab: bool) -> (d: MouseDecision)
    ensures
        d == mouse_decided(code, *ev, center, grab),
{
    if code < 0 || ev.flags & MOUSE_INJECTED != 0 {
        return MouseDecision { emit: MouseOutput::Nothing, swallow: false, warp: false };
    }
    if ev.msg == WM_MOUSEMOVE {
        if grab {
            if ev.x == center.0 && ev.y == center.1 {
                return MouseDecision { emit: MouseOutput::Nothing, swallow: true, warp: false };
            }
            let dx = ev.x as i64 - center.0 as i64;
            let dy = ev.y as i64 - center.1 as i64;
            return MouseDecision {
                emit: MouseOutput::Displaced { dx, dy },
                swallow: true,
                warp: true,
            };
        }
        let one = Coord { bits: coord::ONE };
        let zero = Coord { bits: coord::ZERO };
        let x = ev.norm_x.clamp(zero, one);
        let y = ev.norm_y.clamp(zero, one);
        return MouseDecision {
            emit: MouseOutput::Event(Event::MotionAbs { x, y }),
            swallow: false,
            warp: false,
        };
    }
    let emit = match translate_mouse(ev.msg, ev.data) {
        Some(e) => MouseOutput::Event(e),
        None => MouseOutput::Nothing,
    };
    MouseDecision { emit, swallow: grab, warp: false }
}

/// Injected events are passed on, and nothing is captured from them.
pub proof fn injected_events_pass(
    code: i32,
    msg: u32,
    scan: u32,
    grab: bool,
    d: KeyDecision,
    flags: u32,
    ev: MouseEvent,
    center: (i32, i32),
)
    requires
        flags & KEY_INJECTED != 0,
        key_decided(code, msg, scan, flags, grab, d),
        ev.flags & MOUSE_INJECTED != 0,
    ensures
        d.emit is None && !d.swallow,
        mouse_decided(code, ev, center, grab) == (MouseDecision {
            emit: MouseOutput::Nothing,
            swallow: false,
            warp: false,
        }),
{
}

/// Without a grab nothing is swallowed and the cursor is left alone.
pub proof fn local_input_is_free(
    code: i32,
    msg: u32,
    scan: u32,
    flags: u32,
    d: KeyDecision,
    ev: MouseEvent,
    center: (i32, i32),
)
    requires
        key_decided(code, msg, scan, flags, false, d),
    ensures
        !d.swallow,
        !mouse_decided(code, ev, center, false).swallow,
        !mouse_decided(code, ev, center, false).warp,
{
}

/// A grabbed movement, forwarded and undone by putting the cursor back, adds up: the
/// cursor is where the middle and the displacement put it.
pub proof fn displacement_is_from_the_middle(code: i32, ev: MouseEvent, center: (i32, i32))
    requires
        code >= 0,
        ev.flags & MOUSE_INJECTED == 0,
        ev.msg == WM_MOUSEMOVE,
    ensures
        match mouse_decided(code, ev, center, true).emit {
            MouseOutput::Displaced { dx, dy } => center.0 + dx == ev.x && center.1 + dy == ev.y && (
            dx != 0 || dy != 0),
            MouseOutput::Nothing => (ev.x, ev.y) == center,
            MouseOutput::Event(_) => false,
        },
{
}

/// The event is a key of the local user: it is one, was not injected by a program, and
/// says that a key goes down or comes up.
pub open spec fn key_is_real(code: i32, msg: u32, flags: u32) -> bool {
    &&& code >= 0
    &&& flags & 0x10 == 0
    &&& msg == 0x100 || msg == 0x101 || msg == 0x104 || msg == 0x105
}

/// A key goes down or comes up as the message says, with and without Alt; it is passed
/// on under its usage, and swallowed exactly under a grab, whether or not it is in the
/// table. Nothing else is touched.
pub proof fn keys_are_passed_on(
    code: i32,
    msg: u32,
    scan: u32,
    flags: u32,
    grab: bool,
    d: KeyDecision,
    usage: u16,
)
    requires
        key_decided(code, msg, scan, flags, grab, d),
    ensures
        key_is_real(code, msg, flags) ==> d.swallow == grab,
        !key_is_real(code, msg, flags) ==> !d.swallow && d.emit is None,
        key_is_real(code, msg, flags) && keymap::windows_scancode(usage, flags & 1 != 0) == Some(
            scan,
        ) ==> (d.emit matches Some(Event::Key { usage: u, dir }) && u == usage && (dir
            == Direction::Press <==> msg == 0x100 || msg == 0x104)),
        d.emit matches Some(e) ==> (e matches Event::Key { usage: u, .. }
            && keymap::windows_scancode(u, flags & 1 != 0) == Some(scan)),
{
    let extended = flags & KEY_EXTENDED != 0;
    if key_is_real(code, msg, flags) && keymap::windows_scancode(usage, extended) == Some(scan) {
        if let Some(Event::Key { usage: u, .. }) = d.emit {
            keymap::windows_scancodes_are_distinct(u, usage, extended);
        }
    }
}

/// What a mouse message stands for: the left, right and middle buttons down and up, in
/// that order from 0x201 with a double click behind each, and the extra buttons by the
/// upper half of the data.
pub proof fn buttons_are_their_own(msg: u32, data: u32, button: MouseButton, dir: Direction)
    ensures
        mouse_translated(msg, data) == Some(Event::Button { button, dir }) <==> {
            let down = dir == Direction::Press;
            ||| button == MouseButton::Left && msg == (if down {
                0x201int
            } else {
                0x202int
            })
            ||| button == MouseButton::Right && msg == (if down {
                0x204int
            } else {
                0x205int
            })
            ||| button == MouseButton::Middle && msg == (if down {
                0x207int
            } else {
                0x208int
            })
            ||| msg == (if down {
                0x20Bint
            } else {
                0x20Cint
            }) && (button == MouseButton::Back && 0x1_0000 <= data < 0x2_0000 || button
                == MouseButton::Forward && 0x2_0000 <= data < 0x3_0000)
        },
{
}

/// A wheel turns by the upper half of the data as a signed number of sixteen bits, the
/// one wheel along one axis and the other along the other; no other message scrolls.
pub proof fn wheels_by_the_upper_half(msg: u32, data: u32)
    ensures
        -0x8000 <= signed_half(data) < 0x8000,
        (signed_half(data) - data as int / 0x1_0000) % 0x1_0000 == 0,
        msg == 0x20A ==> (mouse_translated(msg, data) matches Some(Event::Scroll { dx, dy }) && dx
            == 0 && dy == signed_half(data)),
        msg == 0x20E ==> (mouse_translated(msg, data) matches Some(Event::Scroll { dx, dy }) && dx
            == signed_half(data) && dy == 0),
        mouse_translated(msg, data) matches Some(e) ==> (e is Scroll <==> msg == 0x20A || msg
            == 0x20E) && (e is Scroll || e is Button),
{
}

/// Without a grab a movement is passed on as the position, where it lies on the screen
/// as it is and otherwise as the nearest on it. Under a grab it is passed on as the
/// displacement from the middle, and the cursor is put back, unless it is there.
/// Everything else is passed on as what it stands for, and swallowed exactly under a
/// grab.
pub proof fn mouse_is_passed_on(code: i32, ev: MouseEvent, center: (i32, i32), grab: bool)
    requires
        code >= 0,
        ev.flags & 1 == 0,
    ensures
        ({
            let d = mouse_decided(code, ev, center, grab);
            let zero = Coord { bits: coord::ZERO };
            let one = Coord { bits: coord::ONE };
            &&& d.swallow == grab
            &&& d.warp <==> ev.msg == 0x200 && grab && !(ev.x == center.0 && ev.y == center.1)
            &&& ev.msg == 0x200 && !grab ==> (d.emit matches MouseOutput::Event(
                Event::MotionAbs { x, y },
            ) && (zero.le(ev.norm_x) && ev.norm_x.le(one) ==> x == ev.norm_x) && (ev.norm_x.lt(zero)
                ==> x == zero) && (one.lt(ev.norm_x) ==> x == one) && (zero.le(ev.norm_y)
                && ev.norm_y.le(one) ==> y == ev.norm_y) && (ev.norm_y.lt(zero) ==> y == zero) && (
            one.lt(ev.norm_y) ==> y == one))
            &&& ev.msg == 0x200 && grab && d.warp ==> (d.emit matches MouseOutput::Displaced {
                dx,
                dy,
            } && dx == ev.x - center.0 && dy == ev.y - center.1)
            &&& ev.msg == 0x200 && grab && !d.warp ==> d.emit is Nothing
            &&& ev.msg != 0x200 ==> match mouse_translated(ev.msg, ev.data) {
                Some(e) => d.emit == MouseOutput::Event(e),
                None => d.emit is Nothing,
            }
        }),
{
}

/// A call that is none of the hook's events, or an event that a program injected, is
/// passed on untouched, whatever it holds and whether or not there is a grab.
pub proof fn what_is_not_the_users_passes(
    code: i32,
    ev: MouseEvent,
    center: (i32, i32),
    grab: bool,
)
    requires
        code < 0 || ev.flags & 1 != 0,
    ensures
        ({
            let d = mouse_decided(code, ev, center, grab);
            d.emit is Nothing && !d.swallow && !d.warp
        }),
{
}

} // verus!

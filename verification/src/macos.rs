//! What the event tap of the Mac capture backend does with each event.
//!
//! While the controller drives the other machine (`grab`), local input is swallowed
//! and the cursor is pinned to the middle of the screen: every movement is
//! forwarded as a displacement and the cursor is put back. Putting it back causes an
//! event of its own, at the middle, which is dropped: its displacement would undo
//! the real one. Holding both Command keys lets go at once, without the network.

use crate::coord;
use crate::coord::Coord;
use crate::event;
use crate::event::{Direction, Event, MouseButton};
use crate::keymap;
use vstd::prelude::*;

verus! {

/// The virtual key code of the left Command key.
pub const LEFT_COMMAND: u16 = 0x37;

/// The virtual key code of the right Command key.
pub const RIGHT_COMMAND: u16 = 0x36;

/// The bits of an event's flags.
pub const FLAG_CAPS: u64 = 0x1_0000;

pub const FLAG_SHIFT: u64 = 0x2_0000;

pub const FLAG_CONTROL: u64 = 0x4_0000;

pub const FLAG_ALT: u64 = 0x8_0000;

pub const FLAG_COMMAND: u64 = 0x10_0000;

/// The kinds of events that reach the tap.
#[derive(Debug, Clone, Copy, PartialEq, Eq, Structural)]
pub enum TapKind {
    MouseMoved,
    LeftMouseDragged,
    RightMouseDragged,
    OtherMouseDragged,
    LeftMouseDown,
    LeftMouseUp,
    RightMouseDown,
    RightMouseUp,
    OtherMouseDown,
    OtherMouseUp,
    ScrollWheel,
    KeyDown,
    KeyUp,
    FlagsChanged,
    /// The system has stopped the tap because it was slow.
    DisabledByTimeout,
    /// The system has stopped the tap on purpose (a password field, a permission
    /// taken away).
    DisabledByUserInput,
    Other,
}

/// An event as the tap sees it.
#[derive(Debug, Clone, Copy, PartialEq)]
pub struct TapEvent {
    pub kind: TapKind,
    /// The virtual key code.
    pub keycode: u16,
    /// The modifier flags at the time of the event.
    pub flags: u64,
    /// The number of the mouse button.
    pub button: i64,
    /// Wheel notches along each axis.
    pub wheel_x: i32,
    pub wheel_y: i32,
    /// How far the cursor is from the middle of the screen.
    pub off_x: Coord,
    pub off_y: Coord,
    /// The displacement that the hardware reported.
    pub dx: Coord,
    pub dy: Coord,
    /// The cursor's position divided by the size of the screen.
    pub x: Coord,
    pub y: Coord,
}

/// What becomes of an event.
#[derive(Debug, Clone, Copy, PartialEq)]
pub struct TapDecision {
    /// The event that goes to the controller.
    pub emit: Option<Event>,
    /// The local machine does not see the event.
    pub swallow: bool,
    /// Put the cursor back in the middle.
    pub warp: bool,
    /// Stop grabbing and show the cursor.
    pub release_grab: bool,
    /// Tell the controller that the user has asked for their machine back.
    pub escape: bool,
    /// Start the tap again.
    pub restart: bool,
}

/// The event passes, and nothing else happens.
pub open spec fn pass() -> TapDecision {
    TapDecision {
        emit: None,
        swallow: false,
        warp: false,
        release_grab: false,
        escape: false,
        restart: false,
    }
}

/// The bit that stands for a Command key in the chord's state: the first for the left
/// one, the second for the right one.
pub open spec fn command_bit(keycode: u16) -> Option<u8> {
    if keycode == LEFT_COMMAND {
        Some(1)
    } else if keycode == RIGHT_COMMAND {
        Some(2)
    } else {
        None
    }
}

/// The chord's state after a change of modifiers. The two Command keys share one
/// flag: with the flag clear both are up; with it set, the key that changed has gone
/// down if it was up, and come up if it was down.
pub open spec fn chord_after(state: u8, keycode: u16, command: bool) -> u8 {
    match command_bit(keycode) {
        Some(bit) => if command {
            state ^ bit
        } else {
            0
        },
        None => state,
    }
}

/// Whether a change of modifiers completes the chord: a Command key changed, and both
/// are down now.
pub open spec fn chord_completed(state: u8, keycode: u16, command: bool) -> bool {
    command_bit(keycode) is Some && command && chord_after(state, keycode, command) == 3
}

/// Follows which Command keys are down; says whether both have come to be.
pub fn update_cmd_chord(state: &mut u8, keycode: u16, cmd_flag_set: bool) -> (r: bool)
    ensures
        *final(state) == chord_after(*old(state), keycode, cmd_flag_set),
        r == chord_completed(*old(state), keycode, cmd_flag_set),
{
    let bit: u8 = match keycode {
        0x37 => 1,
        0x36 => 2,
        _ => return false,
    };
    if !cmd_flag_set {
        *state = 0;
        return false;
    }
    let before = *state;
    if before & bit == 0 {
        *state = before | bit;
        assert(before & bit == 0 ==> before | bit == before ^ bit) by (bit_vector);
    } else {
        *state = before & !bit;
        assert(bit == 1 || bit == 2 ==> before & bit != 0 ==> before & !bit == before ^ bit)
            by (bit_vector);
    }
    *state == 3
}

/// One Command key goes down while exactly the other one is down already: nothing else
/// completes the chord, and this always does.
pub proof fn chord_is_both_keys(state: u8, keycode: u16, command: bool)
    ensures
        chord_completed(state, keycode, command) <==> command && (keycode == LEFT_COMMAND && state
            == 2 || keycode == RIGHT_COMMAND && state == 1),
{
    assert(state ^ 1 == 3 <==> state == 2) by (bit_vector);
    assert(state ^ 2 == 3 <==> state == 1) by (bit_vector);
}

/// From no Command key down, pressing one and then the other completes the chord, and
/// with all modifiers released none is down again.
pub proof fn chord_from_the_beginning(first: u16, second: u16, any: u8)
    requires
        command_bit(first) is Some,
        command_bit(second) is Some,
    ensures
        !chord_completed(0, first, true),
        chord_completed(chord_after(0, first, true), second, true) <==> first != second,
        chord_after(any, first, false) == 0,
{
    chord_is_both_keys(0, first, true);
    chord_is_both_keys(chord_after(0, first, true), second, true);
    assert(0u8 ^ 1u8 == 1u8) by (bit_vector);
    assert(0u8 ^ 2u8 == 2u8) by (bit_vector);
}

/// The flag that tells whether a modifier key is down. The two sides of the keyboard
/// share one.
pub open spec fn flag_of(keycode: u16) -> Option<u64> {
    match keycode {
        0x38 => Some(FLAG_SHIFT),
        0x3C => Some(FLAG_SHIFT),
        0x3B => Some(FLAG_CONTROL),
        0x3E => Some(FLAG_CONTROL),
        0x3A => Some(FLAG_ALT),
        0x3D => Some(FLAG_ALT),
        0x37 => Some(FLAG_COMMAND),
        0x36 => Some(FLAG_COMMAND),
        0x39 => Some(FLAG_CAPS),
        _ => None,
    }
}

/// The flag of a modifier key; `None` for any other key.
pub fn modifier_flag_mask(keycode: u16) -> (r: Option<u64>)
    ensures
        r == flag_of(keycode),
{
    match keycode {
        0x38 | 0x3C => Some(FLAG_SHIFT),
        0x3B | 0x3E => Some(FLAG_CONTROL),
        0x3A | 0x3D => Some(FLAG_ALT),
        0x37 | 0x36 => Some(FLAG_COMMAND),
        0x39 => Some(FLAG_CAPS),
        _ => None,
    }
}

/// The button with this number, past the left and the right one.
pub open spec fn other_button_of(number: i64) -> MouseButton {
    if number == 3 {
        MouseButton::Back
    } else if number == 4 {
        MouseButton::Forward
    } else {
        MouseButton::Middle
    }
}

fn other_button(number: i64) -> (r: MouseButton)
    ensures
        r == other_button_of(number),
{
    match number {
        3 => MouseButton::Back,
        4 => MouseButton::Forward,
        _ => MouseButton::Middle,
    }
}

/// The event is a movement of the cursor.
pub open spec fn moves(kind: TapKind) -> bool {
    kind is MouseMoved || kind is LeftMouseDragged || kind is RightMouseDragged
        || kind is OtherMouseDragged
}

/// A wheel has turned by no more than a scroll event can count.
pub open spec fn wheel_fits(ev: TapEvent) -> bool {
    ev.kind is ScrollWheel ==> {
        &&& i32::MIN <= ev.wheel_x * 120 <= i32::MAX
        &&& i32::MIN <= ev.wheel_y * 120 <= i32::MAX
    }
}

/// The key event for this key code, where the key is known.
pub open spec fn keyed(keycode: u16, dir: Direction, out: Option<Event>) -> bool {
    match out {
        Some(ev) => ev matches Event::Key { usage, dir: d } && d == dir && keymap::mac_keycode(
            usage,
        ) == Some(keycode),
        None => forall|usage: u16| #[trigger] keymap::mac_keycode(usage) != Some(keycode),
    }
}

/// `out` is the event that stands for `ev` outside of a grabbed movement.
pub open spec fn translated(ev: TapEvent, out: Option<Event>) -> bool {
    let one = Coord { bits: coord::ONE };
    let zero = Coord { bits: coord::ZERO };
    match ev.kind {
        TapKind::MouseMoved
        | TapKind::LeftMouseDragged
        | TapKind::RightMouseDragged
        | TapKind::OtherMouseDragged => out == Some(
            Event::MotionAbs { x: ev.x.clamped(zero, one), y: ev.y.clamped(zero, one) },
        ),
        TapKind::LeftMouseDown => out == Some(
            Event::Button { button: MouseButton::Left, dir: Direction::Press },
        ),
        TapKind::LeftMouseUp => out == Some(
            Event::Button { button: MouseButton::Left, dir: Direction::Release },
        ),
        TapKind::RightMouseDown => out == Some(
            Event::Button { button: MouseButton::Right, dir: Direction::Press },
        ),
        TapKind::RightMouseUp => out == Some(
            Event::Button { button: MouseButton::Right, dir: Direction::Release },
        ),
        TapKind::OtherMouseDown => out == Some(
            Event::Button { button: other_button_of(ev.button), dir: Direction::Press },
        ),
        TapKind::OtherMouseUp => out == Some(
            Event::Button { button: other_button_of(ev.button), dir: Direction::Release },
        ),
        TapKind::ScrollWheel => out == Some(
            Event::Scroll { dx: (ev.wheel_x * 120) as i32, dy: (ev.wheel_y * 120) as i32 },
        ),
        TapKind::KeyDown => keyed(ev.keycode, Direction::Press, out),
        TapKind::KeyUp => keyed(ev.keycode, Direction::Release, out),
        TapKind::FlagsChanged => match flag_of(ev.keycode) {
            Some(mask) => keyed(
                ev.keycode,
                if ev.flags & mask == mask {
                    Direction::Press
                } else {
                    Direction::Release
                },
                out,
            ),
            None => out is None,
        },
        _ => out is None,
    }
}

fn key_event(keycode: u16, dir: Direction) -> (r: Option<Event>)
    ensures
        keyed(keycode, dir, r),
{
    match keymap::cgkeycode_to_hid(keycode) {
        Some(usage) => Some(Event::Key { usage, dir }),
        None => None,
    }
}

/// The event that stands for `ev`; `None` where there is none, as for a key that is
/// in no table.
pub fn translate(ev: &TapEvent) -> (r: Option<Event>)
    requires
        wheel_fits(*ev),
    ensures
        translated(*ev, r),
{
    let one = Coord { bits: coord::ONE };
    let zero = Coord { bits: coord::ZERO };
    match ev.kind {
        TapKind::MouseMoved
        | TapKind::LeftMouseDragged
        | TapKind::RightMouseDragged
        | TapKind::OtherMouseDragged => Some(
            Event::MotionAbs { x: ev.x.clamp(zero, one), y: ev.y.clamp(zero, one) },
        ),
        TapKind::LeftMouseDown => Some(
            Event::Button { button: MouseButton::Left, dir: Direction::Press },
        ),
        TapKind::LeftMouseUp => Some(
            Event::Button { button: MouseButton::Left, dir: Direction::Release },
        ),
        TapKind::RightMouseDown => Some(
            Event::Button { button: MouseButton::Right, dir: Direction::Press },
        ),
        TapKind::RightMouseUp => Some(
            Event::Button { button: MouseButton::Right, dir: Direction::Release },
        ),
        TapKind::OtherMouseDown => Some(
            Event::Button { button: other_button(ev.button), dir: Direction::Press },
        ),
        TapKind::OtherMouseUp => Some(
            Event::Button { button: other_button(ev.button), dir: Direction::Release },
        ),
        TapKind::ScrollWheel => Some(
            Event::Scroll { dx: ev.wheel_x * 120, dy: ev.wheel_y * 120 },
        ),
        TapKind::KeyDown => key_event(ev.keycode, Direction::Press),
        TapKind::KeyUp => key_event(ev.keycode, Direction::Release),
        TapKind::FlagsChanged => match modifier_flag_mask(ev.keycode) {
            Some(mask) => {
                let dir = if ev.flags & mask == mask {
                    Direction::Press
                } else {
                    Direction::Release
                };
                key_event(ev.keycode, dir)
            },
            None => None,
        },
        _ => None,
    }
}

/// The cursor is where the tap puts it: within half a point of the middle.
pub open spec fn at_middle(ev: TapEvent) -> bool {
    let half = Coord { bits: coord::HALF };
    ev.off_x.spec_abs().lt(half) && ev.off_y.spec_abs().lt(half)
}

/// The change of modifiers in `ev` completes the chord.
pub open spec fn escapes(chord: u8, ev: TapEvent) -> bool {
    ev.kind is FlagsChanged && chord_completed(
        chord,
        ev.keycode,
        ev.flags & FLAG_COMMAND == FLAG_COMMAND,
    )
}

/// The chord's state after `ev`. Completing the chord begins it anew.
pub open spec fn chord_next(chord: u8, ev: TapEvent) -> u8 {
    if escapes(chord, ev) {
        0
    } else if ev.kind is FlagsChanged {
        chord_after(chord, ev.keycode, ev.flags & FLAG_COMMAND == FLAG_COMMAND)
    } else {
        chord
    }
}

/// `d` is what becomes of `ev`.
pub open spec fn decided(chord: u8, grab: bool, ev: TapEvent, d: TapDecision) -> bool {
    if ev.kind is DisabledByTimeout {
        d == (TapDecision { restart: true, ..pass() })
    } else if ev.kind is DisabledByUserInput {
        d == (TapDecision { release_grab: true, ..pass() })
    } else if escapes(chord, ev) {
        d == (TapDecision { release_grab: grab, escape: grab, ..pass() })
    } else if grab && moves(ev.kind) {
        if at_middle(ev) {
            d == (TapDecision { swallow: true, ..pass() })
        } else {
            d == (TapDecision {
                emit: if ev.dx.is_zero() && ev.dy.is_zero() {
                    None
                } else {
                    Some(Event::MotionRel { dx: ev.dx, dy: ev.dy })
                },
                swallow: true,
                warp: true,
                ..pass()
            })
        }
    } else {
        translated(ev, d.emit) && d == (TapDecision { emit: d.emit, swallow: grab, ..pass() })
    }
}

/// Decides on one event. `chord` follows the Command keys from event to event.
pub fn on_event(chord: &mut u8, grab: bool, ev: &TapEvent) -> (d: TapDecision)
    requires
        wheel_fits(*ev),
    ensures
        *final(chord) == chord_next(*old(chord), *ev),
        decided(*old(chord), grab, *ev, d),
{
    let quiet = TapDecision {
        emit: None,
        swallow: false,
        warp: false,
        release_grab: false,
        escape: false,
        restart: false,
    };
    match ev.kind {
        TapKind::DisabledByTimeout => return TapDecision { restart: true, ..quiet },
        TapKind::DisabledByUserInput => return TapDecision { release_grab: true, ..quiet },
        TapKind::FlagsChanged => {
            let command = ev.flags & FLAG_COMMAND == FLAG_COMMAND;
            if update_cmd_chord(chord, ev.keycode, command) {
                *chord = 0;
                return TapDecision { release_grab: grab, escape: grab, ..quiet };
            }
        },
        _ => {},
    }
    let moving = match ev.kind {
        TapKind::MouseMoved
        | TapKind::LeftMouseDragged
        | TapKind::RightMouseDragged
        | TapKind::OtherMouseDragged => true,
        _ => false,
    };
    if grab && moving {
        let half = Coord { bits: coord::HALF };
        if ev.off_x.abs().less(half) && ev.off_y.abs().less(half) {
            return TapDecision { swallow: true, ..quiet };
        }
        let emit = if ev.dx.zero() && ev.dy.zero() {
            None
        } else {
            Some(Event::MotionRel { dx: ev.dx, dy: ev.dy })
        };
        return TapDecision { emit, swallow: true, warp: true, ..quiet };
    }
    TapDecision { emit: translate(ev), swallow: grab, ..quiet }
}

/// Without a grab nothing is swallowed and the cursor is left alone.
pub proof fn local_input_is_free(chord: u8, ev: TapEvent, d: TapDecision)
    requires
        decided(chord, false, ev, d),
    ensures
        !d.swallow,
        !d.warp,
{
}

/// Under a grab the local machine sees nothing but what ends the grab or restarts the
/// tap.
pub proof fn grabbed_input_is_swallowed(chord: u8, ev: TapEvent, d: TapDecision)
    requires
        decided(chord, true, ev, d),
    ensures
        d.swallow || d.release_grab || d.restart,
        d.emit is Some ==> d.swallow,
{
}

/// Completing the chord ends a grab, whatever else is going on. Without one there is
/// nothing to escape from, and no request is made.
pub proof fn chord_always_escapes(chord: u8, grab: bool, ev: TapEvent, d: TapDecision)
    requires
        escapes(chord, ev),
        decided(chord, grab, ev, d),
    ensures
        d.release_grab <==> grab,
        d.escape <==> grab,
        !d.swallow,
{
}

/// A request for the machine back is made under a grab only, and by the chord only; it
/// comes with the end of the grab.
pub proof fn escape_is_asked_for_under_a_grab(
    chord: u8,
    grab: bool,
    ev: TapEvent,
    d: TapDecision,
)
    requires
        decided(chord, grab, ev, d),
    ensures
        d.escape <==> grab && escapes(chord, ev),
        d.escape ==> d.release_grab,
{
}

/// The echo of putting the cursor back moves nothing on the other machine.
pub proof fn echo_is_dropped(chord: u8, ev: TapEvent, d: TapDecision)
    requires
        moves(ev.kind),
        at_middle(ev),
        decided(chord, true, ev, d),
    ensures
        d.emit is None,
        !d.warp,
{
}

/// What goes down is a press and what comes up is a release, of keys and of buttons
/// alike, and each mouse button is its own.
pub proof fn direction_is_that_of_the_change(ev: TapEvent, out: Option<Event>)
    requires
        translated(ev, out),
    ensures
        ev.kind is KeyDown ==> (out matches Some(e) ==> (e matches Event::Key { dir, .. } && dir
            == Direction::Press)),
        ev.kind is KeyUp ==> (out matches Some(e) ==> (e matches Event::Key { dir, .. } && dir
            == Direction::Release)),
        ev.kind is LeftMouseDown || ev.kind is RightMouseDown || ev.kind is OtherMouseDown ==> (
        out matches Some(Event::Button { dir, .. }) && dir == Direction::Press),
        ev.kind is LeftMouseUp || ev.kind is RightMouseUp || ev.kind is OtherMouseUp ==> (
        out matches Some(Event::Button { dir, .. }) && dir == Direction::Release),
        ev.kind is LeftMouseDown || ev.kind is LeftMouseUp ==> (out matches Some(
            Event::Button { button, .. },
        ) && button == MouseButton::Left),
        ev.kind is RightMouseDown || ev.kind is RightMouseUp ==> (out matches Some(
            Event::Button { button, .. },
        ) && button == MouseButton::Right),
        ev.kind is OtherMouseDown || ev.kind is OtherMouseUp ==> (out matches Some(
            Event::Button { button, .. },
        ) && (button == MouseButton::Back <==> ev.button == 3) && (button == MouseButton::Forward
            <==> ev.button == 4) && (button == MouseButton::Middle <==> ev.button != 3 && ev.button
            != 4)),
        ev.kind is Other || ev.kind is DisabledByTimeout || ev.kind is DisabledByUserInput
            ==> out is None,
        ev.kind is FlagsChanged ==> (out matches Some(e) ==> e is Key),
{
}

/// A key that goes down and comes up is a press and then a release of one usage, the
/// one that the key has; a key that is in no table is neither.
pub proof fn key_is_released_as_it_was_pressed(
    down: TapEvent,
    pressed: Option<Event>,
    up: TapEvent,
    released: Option<Event>,
    usage: u16,
)
    requires
        down.kind is KeyDown,
        up.kind is KeyUp,
        down.keycode == up.keycode,
        translated(down, pressed),
        translated(up, released),
    ensures
        keymap::mac_keycode(usage) == Some(down.keycode) ==> pressed == Some(
            Event::Key { usage, dir: Direction::Press },
        ) && released == Some(Event::Key { usage, dir: Direction::Release }),
        pressed is Some <==> released is Some,
{
    if keymap::mac_keycode(usage) == Some(down.keycode) {
        if let Some(Event::Key { usage: u, .. }) = pressed {
            keymap::mac_keycodes_are_distinct(u, usage);
        }
        if let Some(Event::Key { usage: u, .. }) = released {
            keymap::mac_keycodes_are_distinct(u, usage);
        }
    }
}

/// A change of modifiers is a press of the key that changed if its flag is set after
/// it, and a release if the flag is clear; only the nine modifier keys make one.
pub proof fn modifier_goes_by_its_flag(ev: TapEvent, out: Option<Event>, usage: u16)
    requires
        ev.kind is FlagsChanged,
        translated(ev, out),
        keymap::mac_keycode(usage) == Some(ev.keycode),
    ensures
        out is Some <==> 0xE0 <= usage <= 0xE7 || usage == 0x39,
        out matches Some(e) ==> (e matches Event::Key { usage: u, dir } && u == usage && (dir
            == Direction::Press <==> ev.flags & flag_of(ev.keycode)->0 == flag_of(ev.keycode)->0)),
{
    if let Some(Event::Key { usage: u, .. }) = out {
        keymap::mac_keycodes_are_distinct(u, usage);
    }
}

/// The flags are the system's: Caps Lock has bit 16, and Shift, Control, Alt and Command
/// the four behind it. The two keys of one kind of modifier have one flag.
pub proof fn flags_by_kind(usage: u16, keycode: u16)
    requires
        keymap::mac_keycode(usage) == Some(keycode),
    ensures
        usage == 0x39 ==> flag_of(keycode) == Some(0x1_0000u64),
        event::modifier_bit(usage) == Some(event::Modifiers::SHIFT) ==> flag_of(keycode) == Some(
            0x2_0000u64,
        ),
        event::modifier_bit(usage) == Some(event::Modifiers::CTRL) ==> flag_of(keycode) == Some(
            0x4_0000u64,
        ),
        event::modifier_bit(usage) == Some(event::Modifiers::ALT) ==> flag_of(keycode) == Some(
            0x8_0000u64,
        ),
        event::modifier_bit(usage) == Some(event::Modifiers::META) ==> flag_of(keycode) == Some(
            0x10_0000u64,
        ),
        event::modifier_bit(usage) is None && usage != 0x39 ==> flag_of(keycode) is None,
{
}

/// A wheel's notch counts 120 along its own axis, and a position that is on the screen
/// is passed on as it is; one off the screen becomes the nearest on it.
pub proof fn wheel_and_position(ev: TapEvent, out: Option<Event>)
    requires
        wheel_fits(ev),
        translated(ev, out),
    ensures
        ev.kind is ScrollWheel ==> (out matches Some(Event::Scroll { dx, dy }) && dx == ev.wheel_x
            * 120 && dy == ev.wheel_y * 120),
        ev.kind is MouseMoved || ev.kind is LeftMouseDragged || ev.kind is RightMouseDragged
            || ev.kind is OtherMouseDragged ==> (out matches Some(Event::MotionAbs { x, y }) && {
            let zero = Coord { bits: coord::ZERO };
            let one = Coord { bits: coord::ONE };
            &&& zero.le(ev.x) && ev.x.le(one) ==> x == ev.x
            &&& ev.x.lt(zero) ==> x == zero
            &&& one.lt(ev.x) ==> x == one
            &&& zero.le(ev.y) && ev.y.le(one) ==> y == ev.y
            &&& ev.y.lt(zero) ==> y == zero
            &&& one.lt(ev.y) ==> y == one
        }),
{
}

/// A cursor is in the middle exactly if it is off by less than half a point each way.
pub proof fn middle_is_half_a_point(ev: TapEvent)
    requires
        ev.off_x.is_finite(),
        ev.off_y.is_finite(),
    ensures
        ({
            let one = (Coord { bits: coord::ONE }).value();
            at_middle(ev) <==> -one < 2 * ev.off_x.value() < one && -one < 2 * ev.off_y.value()
                < one
        }),
{
    let half = Coord { bits: coord::HALF };
    coord::named_numbers();
    coord::absolute_value_has_no_sign(ev.off_x);
    coord::absolute_value_has_no_sign(ev.off_y);
    coord::order_is_by_value(ev.off_x.spec_abs(), half);
    coord::order_is_by_value(ev.off_y.spec_abs(), half);
}

/// Under a grab a movement away from the middle, with or without a button held, is
/// passed on as the displacement that the hardware reported, unless that is nothing, and
/// the cursor is put back. All other input is passed on as without a grab. A position is
/// never passed on.
pub proof fn grabbed_input_is_passed_on(chord: u8, ev: TapEvent, d: TapDecision)
    requires
        decided(chord, true, ev, d),
    ensures
        ({
            let movement = ev.kind is MouseMoved || ev.kind is LeftMouseDragged
                || ev.kind is RightMouseDragged || ev.kind is OtherMouseDragged;
            let stopped = ev.kind is DisabledByTimeout || ev.kind is DisabledByUserInput;
            let still = ev.dx.is_zero() && ev.dy.is_zero();
            &&& movement && !at_middle(ev) && still ==> d.warp && d.swallow && d.emit is None
            &&& movement && !at_middle(ev) && !still ==> d.warp && d.swallow && (d.emit matches Some(
                Event::MotionRel { dx, dy },
            ) && dx == ev.dx && dy == ev.dy)
            &&& movement && at_middle(ev) ==> d.swallow && !d.warp && d.emit is None
            &&& !movement && !stopped && !escapes(chord, ev) ==> d.swallow && translated(
                ev,
                d.emit,
            ) && !d.warp
            &&& d.emit matches Some(e) ==> !(e is MotionAbs)
            &&& !stopped && !escapes(chord, ev) ==> !d.release_grab && !d.escape && !d.restart
        }),
{
}

/// Without a grab every event is passed on as what it stands for, but for the chord's
/// last key.
pub proof fn free_input_is_passed_on(chord: u8, ev: TapEvent, d: TapDecision)
    requires
        decided(chord, false, ev, d),
        !escapes(chord, ev),
        !(ev.kind is DisabledByTimeout),
        !(ev.kind is DisabledByUserInput),
    ensures
        translated(ev, d.emit),
        !d.release_grab,
        !d.restart,
{
}

/// A tap that was slow is started again and nothing else; one that was stopped on
/// purpose ends the grab and is not.
pub proof fn stopped_tap(chord: u8, grab: bool, ev: TapEvent, d: TapDecision)
    requires
        decided(chord, grab, ev, d),
    ensures
        d.restart <==> ev.kind is DisabledByTimeout,
        ev.kind is DisabledByTimeout ==> !d.release_grab && !d.escape && d.emit is None
            && !d.swallow,
        ev.kind is DisabledByUserInput ==> d.release_grab && !d.escape && d.emit is None
            && !d.swallow,
        d.release_grab ==> ev.kind is DisabledByUserInput || escapes(chord, ev),
{
}

/// The chord is followed through changes of modifiers alone: a Command key that changes
/// while the flag is set turns its own bit and leaves the other's, any other key leaves
/// both, and the chord once complete begins anew.
pub proof fn chord_is_followed(chord: u8, ev: TapEvent)
    requires
        chord < 3,
    ensures
        ({
            let next = chord_next(chord, ev);
            let command = ev.flags & FLAG_COMMAND == FLAG_COMMAND;
            let changed = ev.kind is FlagsChanged && (ev.keycode == 0x37 || ev.keycode == 0x36);
            &&& next < 3
            &&& !changed ==> next == chord
            &&& changed && !command ==> next == 0
            &&& changed && command && chord == 0 ==> next == (if ev.keycode == 0x37 {
                1int
            } else {
                2int
            })
            &&& changed && command && chord != 0 ==> next == 0
            &&& escapes(chord, ev) <==> changed && command && chord == (if ev.keycode == 0x37 {
                2int
            } else {
                1int
            })
        }),
{
    assert(0u8 ^ 1u8 == 1u8) by (bit_vector);
    assert(0u8 ^ 2u8 == 2u8) by (bit_vector);
    assert(1u8 ^ 1u8 == 0u8) by (bit_vector);
    assert(2u8 ^ 2u8 == 0u8) by (bit_vector);
    assert(1u8 ^ 2u8 == 3u8) by (bit_vector);
    assert(2u8 ^ 1u8 == 3u8) by (bit_vector);
}

/// A Command key that changes while the flag is set turns its own bit, the lowest for the
/// left one and the next for the right one, and no other, whatever the state; with the
/// flag clear none is left, and any other key changes nothing.
pub proof fn command_turns_its_bit(state: u8, keycode: u16, command: bool)
    ensures
        ({
            let after = chord_after(state, keycode, command);
            &&& keycode == 0x37 && command ==> after & 1 != state & 1 && after & 0xFE == state
                & 0xFE
            &&& keycode == 0x36 && command ==> after & 2 != state & 2 && after & 0xFD == state
                & 0xFD
            &&& (keycode == 0x37 || keycode == 0x36) && !command ==> after == 0
            &&& keycode != 0x37 && keycode != 0x36 ==> after == state
        }),
{
    assert((state ^ 1) & 1 != state & 1 && (state ^ 1) & 0xFE == state & 0xFE) by (bit_vector);
    assert((state ^ 2) & 2 != state & 2 && (state ^ 2) & 0xFD == state & 0xFD) by (bit_vector);
}

} // verus!

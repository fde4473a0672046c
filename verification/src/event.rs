//! The platform-neutral input model.
//!
//! Keys are identified by their USB HID usage (keyboard/keypad page 0x07), never
//! by an operating system's key code or by a character, so that every platform
//! maps to and from the same anchor.

use crate::coord::Coord;
use vstd::prelude::*;

verus! {

/// Whether a key or button goes down or comes up.
#[derive(Debug, Clone, Copy, PartialEq, Eq, Structural)]
pub enum Direction {
    Press,
    Release,
}

/// A mouse button.
#[derive(Debug, Clone, Copy, PartialEq, Eq, Structural)]
pub enum MouseButton {
    Left,
    Right,
    Middle,
    Back,
    Forward,
}

/// The modifier keys that are down, one bit for each kind, whichever side of the
/// keyboard it is on.
#[derive(Debug, Clone, Copy, PartialEq, Eq, Structural)]
pub struct Modifiers(pub u16);

impl Modifiers {
    pub const CTRL: u16 = 1;

    pub const SHIFT: u16 = 2;

    /// Option on a Mac.
    pub const ALT: u16 = 4;

    /// Command on a Mac, the Windows key on a PC.
    pub const META: u16 = 8;
}

impl Default for Modifiers {
    /// No modifier is down.
    fn default() -> (r: Modifiers)
        ensures
            r == Modifiers(0),
    {
        Modifiers(0)
    }
}

/// An input event.
///
/// `MotionAbs` is frequent and heals itself when lost, so it goes out in
/// unreliable datagrams; everything else goes over reliable streams, where a
/// lost key release cannot leave a key stuck.
#[allow(inconsistent_fields)]
#[derive(Debug, Clone, Copy, PartialEq)]
pub enum Event {
    /// A key, by its HID usage.
    Key { usage: u16, dir: Direction },
    /// A mouse button.
    Button { button: MouseButton, dir: Direction },
    /// The pointer's position, each axis normalised to the screen.
    MotionAbs { x: Coord, y: Coord },
    /// A displacement of the pointer in points. Only from the capture backend to
    /// the controller's own state machine: while input is grabbed the system
    /// cursor is pinned and its position says nothing.
    MotionRel { dx: Coord, dy: Coord },
    /// Scrolling; 120 is one notch of the wheel.
    Scroll { dx: i32, dy: i32 },
}

/// Handing over control, always over a reliable stream.
#[derive(Debug, Clone, Copy, PartialEq)]
pub enum Control {
    /// The cursor enters the controlled screen at this normalised point, with
    /// these modifiers down.
    Enter { x: Coord, y: Coord, mods: Modifiers },
    /// The cursor has left; control is back with the controller.
    Leave,
}

/// The modifier that a key is, on either side of the keyboard.
pub open spec fn modifier_bit(usage: u16) -> Option<u16> {
    if usage == 0xE0 || usage == 0xE4 {
        Some(Modifiers::CTRL)
    } else if usage == 0xE1 || usage == 0xE5 {
        Some(Modifiers::SHIFT)
    } else if usage == 0xE2 || usage == 0xE6 {
        Some(Modifiers::ALT)
    } else if usage == 0xE3 || usage == 0xE7 {
        Some(Modifiers::META)
    } else {
        None
    }
}

/// The modifiers that are down after a key went down or came up.
pub open spec fn modifiers_after(mods: Modifiers, usage: u16, dir: Direction) -> Modifiers {
    match modifier_bit(usage) {
        Some(bit) => match dir {
            Direction::Press => Modifiers(mods.0 | bit),
            Direction::Release => Modifiers(mods.0 & !bit),
        },
        None => mods,
    }
}

/// Follows the modifiers that are down, so that they can be handed over with the
/// cursor.
pub fn update_mods(mods: &mut Modifiers, usage: u16, dir: Direction)
    ensures
        *final(mods) == modifiers_after(*old(mods), usage, dir),
{
    let bit: u16 = match usage {
        0xE0 | 0xE4 => Modifiers::CTRL,
        0xE1 | 0xE5 => Modifiers::SHIFT,
        0xE2 | 0xE6 => Modifiers::ALT,
        0xE3 | 0xE7 => Modifiers::META,
        _ => return,
    };
    match dir {
        Direction::Press => mods.0 = mods.0 | bit,
        Direction::Release => mods.0 = mods.0 & !bit,
    }
}

/// Whether the modifier with this bit is down.
pub open spec fn has(mods: Modifiers, bit: u16) -> bool {
    mods.0 & bit != 0
}

/// A modifier key that goes down is down, one that comes up is up, and the other
/// modifiers stay as they were.
pub proof fn modifiers_are_followed(mods: Modifiers, usage: u16, dir: Direction, other: u16)
    requires
        modifier_bit(usage) is Some,
        other == Modifiers::CTRL || other == Modifiers::SHIFT || other == Modifiers::ALT || other
            == Modifiers::META,
    ensures
        has(modifiers_after(mods, usage, dir), other) == (if Some(other) == modifier_bit(usage) {
            dir == Direction::Press
        } else {
            has(mods, other)
        }),
{
    let m = mods.0;
    let bit = modifier_bit(usage)->0;
    assert(bit == 1 || bit == 2 || bit == 4 || bit == 8 ==> (m | bit) & bit != 0) by (bit_vector);
    assert((m & !bit) & bit == 0) by (bit_vector);
    assert((bit == 1 || bit == 2 || bit == 4 || bit == 8) && (other == 1 || other == 2 || other == 4
        || other == 8) && other != bit ==> (m | bit) & other == m & other && (m & !bit) & other == m
        & other) by (bit_vector);
}

/// The eight modifier keys are the usages from 0xE0 to 0xE7: Control, Shift, Alt and
/// Meta on the left, then the same on the right. Each kind has a bit of its own, in
/// that order from the lowest, and the two sides share it.
pub proof fn modifiers_in_usage_order(usage: u16)
    ensures
        modifier_bit(usage) is Some <==> 0xE0 <= usage <= 0xE7,
        0xE0 <= usage <= 0xE3 ==> modifier_bit(usage) == modifier_bit((usage + 4) as u16),
        0xE0 <= usage <= 0xE2 ==> (modifier_bit(usage) matches Some(bit) && modifier_bit(
            (usage + 1) as u16,
        ) == Some((2 * bit) as u16)),
        usage == 0xE0 ==> modifier_bit(usage) == Some(1u16),
        Modifiers::CTRL == 1,
        Modifiers::SHIFT == 2,
        Modifiers::ALT == 4,
        Modifiers::META == 8,
{
}

/// A key touches no bit but that of its own modifier, and a key that is none touches
/// nothing.
pub proof fn other_bits_stay(mods: Modifiers, usage: u16, dir: Direction, mask: u16)
    ensures
        modifier_bit(usage) is None ==> modifiers_after(mods, usage, dir) == mods,
        modifier_bit(usage) matches Some(bit) ==> (mask & bit == 0 ==> modifiers_after(
            mods,
            usage,
            dir,
        ).0 & mask == mods.0 & mask),
{
    let m = mods.0;
    if let Some(bit) = modifier_bit(usage) {
        assert(mask & bit == 0 ==> (m | bit) & mask == m & mask && (m & !bit) & mask == m & mask)
            by (bit_vector);
    }
}

/// A key that goes down and comes up again leaves its modifier up, and one that comes
/// up and goes down again leaves it down, however it was before.
pub proof fn the_last_change_counts(
    mods: Modifiers,
    usage: u16,
    first: Direction,
    last: Direction,
)
    ensures
        modifiers_after(modifiers_after(mods, usage, first), usage, last) == modifiers_after(
            mods,
            usage,
            last,
        ),
{
    let m = mods.0;
    if let Some(bit) = modifier_bit(usage) {
        assert((m | bit) | bit == m | bit) by (bit_vector);
        assert((m & !bit) | bit == m | bit) by (bit_vector);
        assert((m | bit) & !bit == m & !bit) by (bit_vector);
        assert((m & !bit) & !bit == m & !bit) by (bit_vector);
    }
}

} // verus!

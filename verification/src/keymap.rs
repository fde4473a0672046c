//! The key tables: each platform's key codes and the USB HID usages that they
//! stand for (keyboard/keypad page 0x07).
//!
//! The specifications list the tables by usage, the functions look them up by
//! key code.

use vstd::prelude::*;

verus! {

/// The Mac virtual key code of the key with this usage.
pub open spec fn mac_keycode(usage: u16) -> Option<u16> {
    match usage {
        0x04 => Some(0x00),  // A
        0x05 => Some(0x0B),  // B
        0x06 => Some(0x08),  // C
        0x07 => Some(0x02),  // D
        0x08 => Some(0x0E),  // E
        0x09 => Some(0x03),  // F
        0x0A => Some(0x05),  // G
        0x0B => Some(0x04),  // H
        0x0C => Some(0x22),  // I
        0x0D => Some(0x26),  // J
        0x0E => Some(0x28),  // K
        0x0F => Some(0x25),  // L
        0x10 => Some(0x2E),  // M
        0x11 => Some(0x2D),  // N
        0x12 => Some(0x1F),  // O
        0x13 => Some(0x23),  // P
        0x14 => Some(0x0C),  // Q
        0x15 => Some(0x0F),  // R
        0x16 => Some(0x01),  // S
        0x17 => Some(0x11),  // T
        0x18 => Some(0x20),  // U
        0x19 => Some(0x09),  // V
        0x1A => Some(0x0D),  // W
        0x1B => Some(0x07),  // X
        0x1C => Some(0x10),  // Y
        0x1D => Some(0x06),  // Z
        0x1E => Some(0x12),  // 1
        0x1F => Some(0x13),  // 2
        0x20 => Some(0x14),  // 3
        0x21 => Some(0x15),  // 4
        0x22 => Some(0x17),  // 5
        0x23 => Some(0x16),  // 6
        0x24 => Some(0x1A),  // 7
        0x25 => Some(0x1C),  // 8
        0x26 => Some(0x19),  // 9
        0x27 => Some(0x1D),  // 0
        0x28 => Some(0x24),  // Return
        0x29 => Some(0x35),  // Escape
        0x2A => Some(0x33),  // Backspace
        0x2B => Some(0x30),  // Tab
        0x2C => Some(0x31),  // Space
        0x2D => Some(0x1B),  // -
        0x2E => Some(0x18),  // =
        0x2F => Some(0x21),  // [
        0x30 => Some(0x1E),  // ]
        0x31 => Some(0x2A),  // backslash
        0x33 => Some(0x29),  // ;
        0x34 => Some(0x27),  // '
        0x35 => Some(0x32),  // `
        0x36 => Some(0x2B),  // ,
        0x37 => Some(0x2F),  // .
        0x38 => Some(0x2C),  // /
        0x39 => Some(0x39),  // Caps Lock
        0x3A => Some(0x7A),  // F1
        0x3B => Some(0x78),  // F2
        0x3C => Some(0x63),  // F3
        0x3D => Some(0x76),  // F4
        0x3E => Some(0x60),  // F5
        0x3F => Some(0x61),  // F6
        0x40 => Some(0x62),  // F7
        0x41 => Some(0x64),  // F8
        0x42 => Some(0x65),  // F9
        0x43 => Some(0x6D),  // F10
        0x44 => Some(0x67),  // F11
        0x45 => Some(0x6F),  // F12
        0x49 => Some(0x72),  // Insert
        0x4A => Some(0x73),  // Home
        0x4B => Some(0x74),  // Page Up
        0x4C => Some(0x75),  // Delete
        0x4D => Some(0x77),  // End
        0x4E => Some(0x79),  // Page Down
        0x4F => Some(0x7C),  // Right
        0x50 => Some(0x7B),  // Left
        0x51 => Some(0x7D),  // Down
        0x52 => Some(0x7E),  // Up
        0xE0 => Some(0x3B),  // left Control
        0xE1 => Some(0x38),  // left Shift
        0xE2 => Some(0x3A),  // left Alt
        0xE3 => Some(0x37),  // left Meta
        0xE4 => Some(0x3E),  // right Control
        0xE5 => Some(0x3C),  // right Shift
        0xE6 => Some(0x3D),  // right Alt
        0xE7 => Some(0x36),  // right Meta
        _ => None,
    }
}

/// The set 1 scan code that a Windows low-level hook reports for the key with this
/// usage, without or with the extended flag.
///
/// This is what the hook reports, not what the keyboard sends: Pause comes as 0x45
/// without the flag and Num Lock as 0x45 with it, Pause under Control comes as 0x46
/// with the flag, and Print Screen under Alt as 0x54. An input method may set the
/// flag for the right Shift key. The shadow Shift that keyboards send round the
/// navigation keys (0x2A with the flag) is no key.
pub open spec fn windows_scancode(usage: u16, extended: bool) -> Option<u32> {
    if extended {
        windows_extended(usage)
    } else {
        windows_plain(usage)
    }
}

/// The scan codes that come with the extended flag.
pub open spec fn windows_extended(usage: u16) -> Option<u32> {
    match usage {
        0x46 => Some(0x37),  // Print Screen
        0x48 => Some(0x46),  // Pause
        0x49 => Some(0x52),  // Insert
        0x4A => Some(0x47),  // Home
        0x4B => Some(0x49),  // Page Up
        0x4C => Some(0x53),  // Delete
        0x4D => Some(0x4F),  // End
        0x4E => Some(0x51),  // Page Down
        0x4F => Some(0x4D),  // Right
        0x50 => Some(0x4B),  // Left
        0x51 => Some(0x50),  // Down
        0x52 => Some(0x48),  // Up
        0x53 => Some(0x45),  // Num Lock
        0x54 => Some(0x35),  // keypad /
        0x58 => Some(0x1C),  // keypad Enter
        0x65 => Some(0x5D),  // Menu
        0xE3 => Some(0x5B),  // left Meta
        0xE4 => Some(0x1D),  // right Control
        0xE5 => Some(0x36),  // right Shift
        0xE6 => Some(0x38),  // right Alt
        0xE7 => Some(0x5C),  // right Meta
        _ => None,
    }
}

/// The scan codes that come without the extended flag.
pub open spec fn windows_plain(usage: u16) -> Option<u32> {
    match usage {
        0x04 => Some(0x1E),  // A
        0x05 => Some(0x30),  // B
        0x06 => Some(0x2E),  // C
        0x07 => Some(0x20),  // D
        0x08 => Some(0x12),  // E
        0x09 => Some(0x21),  // F
        0x0A => Some(0x22),  // G
        0x0B => Some(0x23),  // H
        0x0C => Some(0x17),  // I
        0x0D => Some(0x24),  // J
        0x0E => Some(0x25),  // K
        0x0F => Some(0x26),  // L
        0x10 => Some(0x32),  // M
        0x11 => Some(0x31),  // N
        0x12 => Some(0x18),  // O
        0x13 => Some(0x19),  // P
        0x14 => Some(0x10),  // Q
        0x15 => Some(0x13),  // R
        0x16 => Some(0x1F),  // S
        0x17 => Some(0x14),  // T
        0x18 => Some(0x16),  // U
        0x19 => Some(0x2F),  // V
        0x1A => Some(0x11),  // W
        0x1B => Some(0x2D),  // X
        0x1C => Some(0x15),  // Y
        0x1D => Some(0x2C),  // Z
        0x1E => Some(0x02),  // 1
        0x1F => Some(0x03),  // 2
        0x20 => Some(0x04),  // 3
        0x21 => Some(0x05),  // 4
        0x22 => Some(0x06),  // 5
        0x23 => Some(0x07),  // 6
        0x24 => Some(0x08),  // 7
        0x25 => Some(0x09),  // 8
        0x26 => Some(0x0A),  // 9
        0x27 => Some(0x0B),  // 0
        0x28 => Some(0x1C),  // Return
        0x29 => Some(0x01),  // Escape
        0x2A => Some(0x0E),  // Backspace
        0x2B => Some(0x0F),  // Tab
        0x2C => Some(0x39),  // Space
        0x2D => Some(0x0C),  // -
        0x2E => Some(0x0D),  // =
        0x2F => Some(0x1A),  // [
        0x30 => Some(0x1B),  // ]
        0x31 => Some(0x2B),  // backslash
        0x33 => Some(0x27),  // ;
        0x34 => Some(0x28),  // '
        0x35 => Some(0x29),  // `
        0x36 => Some(0x33),  // ,
        0x37 => Some(0x34),  // .
        0x38 => Some(0x35),  // /
        0x39 => Some(0x3A),  // Caps Lock
        0x3A => Some(0x3B),  // F1
        0x3B => Some(0x3C),  // F2
        0x3C => Some(0x3D),  // F3
        0x3D => Some(0x3E),  // F4
        0x3E => Some(0x3F),  // F5
        0x3F => Some(0x40),  // F6
        0x40 => Some(0x41),  // F7
        0x41 => Some(0x42),  // F8
        0x42 => Some(0x43),  // F9
        0x43 => Some(0x44),  // F10
        0x44 => Some(0x57),  // F11
        0x45 => Some(0x58),  // F12
        0x46 => Some(0x54),  // Print Screen
        0x47 => Some(0x46),  // Scroll Lock
        0x48 => Some(0x45),  // Pause
        0x55 => Some(0x37),  // keypad *
        0x56 => Some(0x4A),  // keypad -
        0x57 => Some(0x4E),  // keypad +
        0x59 => Some(0x4F),  // keypad 1
        0x5A => Some(0x50),  // keypad 2
        0x5B => Some(0x51),  // keypad 3
        0x5C => Some(0x4B),  // keypad 4
        0x5D => Some(0x4C),  // keypad 5
        0x5E => Some(0x4D),  // keypad 6
        0x5F => Some(0x47),  // keypad 7
        0x60 => Some(0x48),  // keypad 8
        0x61 => Some(0x49),  // keypad 9
        0x62 => Some(0x52),  // keypad 0
        0x63 => Some(0x53),  // keypad .
        0x64 => Some(0x56),  // the extra key of ISO keyboards
        0xE0 => Some(0x1D),  // left Control
        0xE1 => Some(0x2A),  // left Shift
        0xE2 => Some(0x38),  // left Alt
        0xE5 => Some(0x36),  // right Shift
        _ => None,
    }
}

/// The usage of the key that has this Mac virtual key code.
pub fn cgkeycode_to_hid(keycode: u16) -> (r: Option<u16>)
    ensures
        match r {
            Some(usage) => mac_keycode(usage) == Some(keycode),
            None => forall|usage: u16| #[trigger] mac_keycode(usage) != Some(keycode),
        },
{
    match keycode {
        0x00 => Some(0x04),  // A
        0x01 => Some(0x16),  // S
        0x02 => Some(0x07),  // D
        0x03 => Some(0x09),  // F
        0x04 => Some(0x0B),  // H
        0x05 => Some(0x0A),  // G
        0x06 => Some(0x1D),  // Z
        0x07 => Some(0x1B),  // X
        0x08 => Some(0x06),  // C
        0x09 => Some(0x19),  // V
        0x0B => Some(0x05),  // B
        0x0C => Some(0x14),  // Q
        0x0D => Some(0x1A),  // W
        0x0E => Some(0x08),  // E
        0x0F => Some(0x15),  // R
        0x10 => Some(0x1C),  // Y
        0x11 => Some(0x17),  // T
        0x12 => Some(0x1E),  // 1
        0x13 => Some(0x1F),  // 2
        0x14 => Some(0x20),  // 3
        0x15 => Some(0x21),  // 4
        0x16 => Some(0x23),  // 6
        0x17 => Some(0x22),  // 5
        0x18 => Some(0x2E),  // =
        0x19 => Some(0x26),  // 9
        0x1A => Some(0x24),  // 7
        0x1B => Some(0x2D),  // -
        0x1C => Some(0x25),  // 8
        0x1D => Some(0x27),  // 0
        0x1E => Some(0x30),  // ]
        0x1F => Some(0x12),  // O
        0x20 => Some(0x18),  // U
        0x21 => Some(0x2F),  // [
        0x22 => Some(0x0C),  // I
        0x23 => Some(0x13),  // P
        0x24 => Some(0x28),  // Return
        0x25 => Some(0x0F),  // L
        0x26 => Some(0x0D),  // J
        0x27 => Some(0x34),  // '
        0x28 => Some(0x0E),  // K
        0x29 => Some(0x33),  // ;
        0x2A => Some(0x31),  // backslash
        0x2B => Some(0x36),  // ,
        0x2C => Some(0x38),  // /
        0x2D => Some(0x11),  // N
        0x2E => Some(0x10),  // M
        0x2F => Some(0x37),  // .
        0x30 => Some(0x2B),  // Tab
        0x31 => Some(0x2C),  // Space
        0x32 => Some(0x35),  // `
        0x33 => Some(0x2A),  // Backspace
        0x35 => Some(0x29),  // Escape
        0x36 => Some(0xE7),  // right Meta
        0x37 => Some(0xE3),  // left Meta
        0x38 => Some(0xE1),  // left Shift
        0x39 => Some(0x39),  // Caps Lock
        0x3A => Some(0xE2),  // left Alt
        0x3B => Some(0xE0),  // left Control
        0x3C => Some(0xE5),  // right Shift
        0x3D => Some(0xE6),  // right Alt
        0x3E => Some(0xE4),  // right Control
        0x60 => Some(0x3E),  // F5
        0x61 => Some(0x3F),  // F6
        0x62 => Some(0x40),  // F7
        0x63 => Some(0x3C),  // F3
        0x64 => Some(0x41),  // F8
        0x65 => Some(0x42),  // F9
        0x67 => Some(0x44),  // F11
        0x6D => Some(0x43),  // F10
        0x6F => Some(0x45),  // F12
        0x72 => Some(0x49),  // Insert
        0x73 => Some(0x4A),  // Home
        0x74 => Some(0x4B),  // Page Up
        0x75 => Some(0x4C),  // Delete
        0x76 => Some(0x3D),  // F4
        0x77 => Some(0x4D),  // End
        0x78 => Some(0x3B),  // F2
        0x79 => Some(0x4E),  // Page Down
        0x7A => Some(0x3A),  // F1
        0x7B => Some(0x50),  // Left
        0x7C => Some(0x4F),  // Right
        0x7D => Some(0x51),  // Down
        0x7E => Some(0x52),  // Up
        _ => None,
    }
}

/// The usage of the key that a Windows low-level hook reports with this scan code.
pub fn scancode_to_hid(scan: u32, extended: bool) -> (r: Option<u16>)
    ensures
        match r {
            Some(usage) => windows_scancode(usage, extended) == Some(scan),
            None => forall|usage: u16| #[trigger]
                windows_scancode(usage, extended) != Some(scan),
        },
{
    if extended {
        extended_to_hid(scan)
    } else {
        plain_to_hid(scan)
    }
}

fn extended_to_hid(scan: u32) -> (r: Option<u16>)
    ensures
        match r {
            Some(usage) => windows_extended(usage) == Some(scan),
            None => forall|usage: u16| #[trigger] windows_extended(usage) != Some(scan),
        },
{
    match scan {
        0x1C => Some(0x58),  // keypad Enter
        0x1D => Some(0xE4),  // right Control
        0x35 => Some(0x54),  // keypad /
        0x36 => Some(0xE5),  // right Shift
        0x37 => Some(0x46),  // Print Screen
        0x38 => Some(0xE6),  // right Alt
        0x45 => Some(0x53),  // Num Lock
        0x46 => Some(0x48),  // Pause
        0x47 => Some(0x4A),  // Home
        0x48 => Some(0x52),  // Up
        0x49 => Some(0x4B),  // Page Up
        0x4B => Some(0x50),  // Left
        0x4D => Some(0x4F),  // Right
        0x4F => Some(0x4D),  // End
        0x50 => Some(0x51),  // Down
        0x51 => Some(0x4E),  // Page Down
        0x52 => Some(0x49),  // Insert
        0x53 => Some(0x4C),  // Delete
        0x5B => Some(0xE3),  // left Meta
        0x5C => Some(0xE7),  // right Meta
        0x5D => Some(0x65),  // Menu
        _ => None,
    }
}

fn plain_to_hid(scan: u32) -> (r: Option<u16>)
    ensures
        match r {
            Some(usage) => windows_plain(usage) == Some(scan),
            None => forall|usage: u16| #[trigger] windows_plain(usage) != Some(scan),
        },
{
    match scan {
        0x01 => Some(0x29),  // Escape
        0x02 => Some(0x1E),  // 1
        0x03 => Some(0x1F),  // 2
        0x04 => Some(0x20),  // 3
        0x05 => Some(0x21),  // 4
        0x06 => Some(0x22),  // 5
        0x07 => Some(0x23),  // 6
        0x08 => Some(0x24),  // 7
        0x09 => Some(0x25),  // 8
        0x0A => Some(0x26),  // 9
        0x0B => Some(0x27),  // 0
        0x0C => Some(0x2D),  // -
        0x0D => Some(0x2E),  // =
        0x0E => Some(0x2A),  // Backspace
        0x0F => Some(0x2B),  // Tab
        0x10 => Some(0x14),  // Q
        0x11 => Some(0x1A),  // W
        0x12 => Some(0x08),  // E
        0x13 => Some(0x15),  // R
        0x14 => Some(0x17),  // T
        0x15 => Some(0x1C),  // Y
        0x16 => Some(0x18),  // U
        0x17 => Some(0x0C),  // I
        0x18 => Some(0x12),  // O
        0x19 => Some(0x13),  // P
        0x1A => Some(0x2F),  // [
        0x1B => Some(0x30),  // ]
        0x1C => Some(0x28),  // Return
        0x1D => Some(0xE0),  // left Control
        0x1E => Some(0x04),  // A
        0x1F => Some(0x16),  // S
        0x20 => Some(0x07),  // D
        0x21 => Some(0x09),  // F
        0x22 => Some(0x0A),  // G
        0x23 => Some(0x0B),  // H
        0x24 => Some(0x0D),  // J
        0x25 => Some(0x0E),  // K
        0x26 => Some(0x0F),  // L
        0x27 => Some(0x33),  // ;
        0x28 => Some(0x34),  // '
        0x29 => Some(0x35),  // `
        0x2A => Some(0xE1),  // left Shift
        0x2B => Some(0x31),  // backslash
        0x2C => Some(0x1D),  // Z
        0x2D => Some(0x1B),  // X
        0x2E => Some(0x06),  // C
        0x2F => Some(0x19),  // V
        0x30 => Some(0x05),  // B
        0x31 => Some(0x11),  // N
        0x32 => Some(0x10),  // M
        0x33 => Some(0x36),  // ,
        0x34 => Some(0x37),  // .
        0x35 => Some(0x38),  // /
        0x36 => Some(0xE5),  // right Shift
        0x37 => Some(0x55),  // keypad *
        0x38 => Some(0xE2),  // left Alt
        0x39 => Some(0x2C),  // Space
        0x3A => Some(0x39),  // Caps Lock
        0x3B => Some(0x3A),  // F1
        0x3C => Some(0x3B),  // F2
        0x3D => Some(0x3C),  // F3
        0x3E => Some(0x3D),  // F4
        0x3F => Some(0x3E),  // F5
        0x40 => Some(0x3F),  // F6
        0x41 => Some(0x40),  // F7
        0x42 => Some(0x41),  // F8
        0x43 => Some(0x42),  // F9
        0x44 => Some(0x43),  // F10
        0x45 => Some(0x48),  // Pause
        0x46 => Some(0x47),  // Scroll Lock
        0x47 => Some(0x5F),  // keypad 7
        0x48 => Some(0x60),  // keypad 8
        0x49 => Some(0x61),  // keypad 9
        0x4A => Some(0x56),  // keypad -
        0x4B => Some(0x5C),  // keypad 4
        0x4C => Some(0x5D),  // keypad 5
        0x4D => Some(0x5E),  // keypad 6
        0x4E => Some(0x57),  // keypad +
        0x4F => Some(0x59),  // keypad 1
        0x50 => Some(0x5A),  // keypad 2
        0x51 => Some(0x5B),  // keypad 3
        0x52 => Some(0x62),  // keypad 0
        0x53 => Some(0x63),  // keypad .
        0x54 => Some(0x46),  // Print Screen
        0x56 => Some(0x64),  // the extra key of ISO keyboards
        0x57 => Some(0x44),  // F11
        0x58 => Some(0x45),  // F12
        _ => None,
    }
}

/// No Mac key code stands for two keys.
pub proof fn mac_keycodes_are_distinct(a: u16, b: u16)
    requires
        mac_keycode(a) is Some,
        mac_keycode(a) == mac_keycode(b),
    ensures
        a == b,
{
}

/// No scan code, with its flag, stands for two keys.
pub proof fn windows_scancodes_are_distinct(a: u16, b: u16, extended: bool)
    requires
        windows_scancode(a, extended) is Some,
        windows_scancode(a, extended) == windows_scancode(b, extended),
    ensures
        a == b,
{
}

/// The shadow Shift of the navigation keys is no key.
pub proof fn shadow_shift_is_no_key(usage: u16)
    ensures
        windows_scancode(usage, true) != Some(0x2Au32),
{
}

/// The keys by scan code from 1 on: the codes were given out along the rows of the
/// first keyboard, from left to right and from top to bottom.
pub open spec fn keys_along_the_rows() -> Seq<u16> {
    seq![
        // Escape and the digits
        0x29u16, 0x1E, 0x1F, 0x20, 0x21, 0x22, 0x23, 0x24, 0x25, 0x26, 0x27, 0x2D,
        0x2E, 0x2A,
        // Tab and the first row of letters
        0x2B, 0x14, 0x1A, 0x08, 0x15, 0x17, 0x1C, 0x18, 0x0C, 0x12, 0x13, 0x2F,
        0x30, 0x28,
        // Control and the second row
        0xE0, 0x04, 0x16, 0x07, 0x09, 0x0A, 0x0B, 0x0D, 0x0E, 0x0F, 0x33, 0x34,
        0x35,
        // Shift and the third row
        0xE1, 0x31, 0x1D, 0x1B, 0x06, 0x19, 0x05, 0x11, 0x10, 0x36, 0x37, 0x38,
        0xE5,
        // keypad *, Alt, Space, Caps Lock
        0x55, 0xE2, 0x2C, 0x39,
        // F1 to F10
        0x3A, 0x3B, 0x3C, 0x3D, 0x3E, 0x3F, 0x40, 0x41, 0x42, 0x43,
        // Pause, Scroll Lock
        0x48, 0x47,
        // the keypad
        0x5F, 0x60, 0x61, 0x56, 0x5C, 0x5D, 0x5E, 0x57, 0x59, 0x5A, 0x5B, 0x62,
        0x63,
        // Print Screen under Alt
        0x46,
    ]
}

/// Without the extended flag the scan codes count the keys along the rows, and go on
/// with the extra key of ISO keyboards, F11 and F12; there are no others.
pub proof fn scan_codes_count_along_the_rows(usage: u16, scan: u32)
    ensures
        1 <= scan <= 0x54 ==> (windows_scancode(usage, false) == Some(scan) <==> usage
            == keys_along_the_rows()[scan - 1]),
        scan == 0x56 ==> (windows_scancode(usage, false) == Some(scan) <==> usage == 0x64),
        scan == 0x57 ==> (windows_scancode(usage, false) == Some(scan) <==> usage == 0x44),
        scan == 0x58 ==> (windows_scancode(usage, false) == Some(scan) <==> usage == 0x45),
        windows_scancode(usage, false) == Some(scan) ==> 1 <= scan <= 0x54 || 0x56 <= scan <= 0x58,
        keys_along_the_rows().len() == 0x54,
{
    let rows = keys_along_the_rows();
    if 1 <= scan <= 0x54 {
        row_is_coded(scan - 1);
        if windows_scancode(usage, false) == Some(scan) {
            windows_scancodes_are_distinct(usage, rows[scan - 1], false);
        }
    }
}

#[verifier::rlimit(60)]
proof fn row_is_coded(i: int)
    requires
        0 <= i < 0x54,
    ensures
        windows_plain(keys_along_the_rows()[i]) == Some((i + 1) as u32),
{
    let rows = keys_along_the_rows();
    assert(rows[0] == 0x29);
    assert(rows[1] == 0x1E);
    assert(rows[2] == 0x1F);
    assert(rows[3] == 0x20);
    assert(rows[4] == 0x21);
    assert(rows[5] == 0x22);
    assert(rows[6] == 0x23);
    assert(rows[7] == 0x24);
    assert(rows[8] == 0x25);
    assert(rows[9] == 0x26);
    assert(rows[10] == 0x27);
    assert(rows[11] == 0x2D);
    assert(rows[12] == 0x2E);
    assert(rows[13] == 0x2A);
    assert(rows[14] == 0x2B);
    assert(rows[15] == 0x14);
    assert(rows[16] == 0x1A);
    assert(rows[17] == 0x08);
    assert(rows[18] == 0x15);
    assert(rows[19] == 0x17);
    assert(rows[20] == 0x1C);
    assert(rows[21] == 0x18);
    assert(rows[22] == 0x0C);
    assert(rows[23] == 0x12);
    assert(rows[24] == 0x13);
    assert(rows[25] == 0x2F);
    assert(rows[26] == 0x30);
    assert(rows[27] == 0x28);
    assert(rows[28] == 0xE0);
    assert(rows[29] == 0x04);
    assert(rows[30] == 0x16);
    assert(rows[31] == 0x07);
    assert(rows[32] == 0x09);
    assert(rows[33] == 0x0A);
    assert(rows[34] == 0x0B);
    assert(rows[35] == 0x0D);
    assert(rows[36] == 0x0E);
    assert(rows[37] == 0x0F);
    assert(rows[38] == 0x33);
    assert(rows[39] == 0x34);
    assert(rows[40] == 0x35);
    assert(rows[41] == 0xE1);
    assert(rows[42] == 0x31);
    assert(rows[43] == 0x1D);
    assert(rows[44] == 0x1B);
    assert(rows[45] == 0x06);
    assert(rows[46] == 0x19);
    assert(rows[47] == 0x05);
    assert(rows[48] == 0x11);
    assert(rows[49] == 0x10);
    assert(rows[50] == 0x36);
    assert(rows[51] == 0x37);
    assert(rows[52] == 0x38);
    assert(rows[53] == 0xE5);
    assert(rows[54] == 0x55);
    assert(rows[55] == 0xE2);
    assert(rows[56] == 0x2C);
    assert(rows[57] == 0x39);
    assert(rows[58] == 0x3A);
    assert(rows[59] == 0x3B);
    assert(rows[60] == 0x3C);
    assert(rows[61] == 0x3D);
    assert(rows[62] == 0x3E);
    assert(rows[63] == 0x3F);
    assert(rows[64] == 0x40);
    assert(rows[65] == 0x41);
    assert(rows[66] == 0x42);
    assert(rows[67] == 0x43);
    assert(rows[68] == 0x48);
    assert(rows[69] == 0x47);
    assert(rows[70] == 0x5F);
    assert(rows[71] == 0x60);
    assert(rows[72] == 0x61);
    assert(rows[73] == 0x56);
    assert(rows[74] == 0x5C);
    assert(rows[75] == 0x5D);
    assert(rows[76] == 0x5E);
    assert(rows[77] == 0x57);
    assert(rows[78] == 0x59);
    assert(rows[79] == 0x5A);
    assert(rows[80] == 0x5B);
    assert(rows[81] == 0x62);
    assert(rows[82] == 0x63);
    assert(rows[83] == 0x46);
}

/// The keys that came later have the code of an older key, with the extended flag: the
/// navigation keys and arrows that of the keypad key that does the same without Num
/// Lock, the right Control and Alt that of the left one, Enter and the division sign of
/// the keypad that of the other, Print Screen that of the keypad's asterisk. Pause under
/// Control comes as Scroll Lock does and Num Lock as Pause, and right Shift as without
/// the flag. The Meta keys and the Menu key follow one another.
pub proof fn extended_keys_are_twins()
    ensures
        windows_scancode(0x49, true) == windows_scancode(0x62, false),
        windows_scancode(0x4C, true) == windows_scancode(0x63, false),
        windows_scancode(0x4D, true) == windows_scancode(0x59, false),
        windows_scancode(0x51, true) == windows_scancode(0x5A, false),
        windows_scancode(0x4E, true) == windows_scancode(0x5B, false),
        windows_scancode(0x50, true) == windows_scancode(0x5C, false),
        windows_scancode(0x4F, true) == windows_scancode(0x5E, false),
        windows_scancode(0x4A, true) == windows_scancode(0x5F, false),
        windows_scancode(0x52, true) == windows_scancode(0x60, false),
        windows_scancode(0x4B, true) == windows_scancode(0x61, false),
        windows_scancode(0xE4, true) == windows_scancode(0xE0, false),
        windows_scancode(0xE6, true) == windows_scancode(0xE2, false),
        windows_scancode(0xE5, true) == windows_scancode(0xE5, false),
        windows_scancode(0x58, true) == windows_scancode(0x28, false),
        windows_scancode(0x54, true) == windows_scancode(0x38, false),
        windows_scancode(0x46, true) == windows_scancode(0x55, false),
        windows_scancode(0x48, true) == windows_scancode(0x47, false),
        windows_scancode(0x53, true) == windows_scancode(0x48, false),
        windows_scancode(0xE3, true) == Some(0x5Bu32),
        windows_scancode(0xE7, true) == Some(0x5Cu32),
        windows_scancode(0x65, true) == Some(0x5Du32),
{
}

/// No other key comes with the extended flag.
pub proof fn no_other_key_is_extended(usage: u16)
    ensures
        windows_scancode(usage, true) is Some <==> usage == 0x46 || 0x48 <= usage <= 0x54 || usage
            == 0x58 || usage == 0x65 || 0xE3 <= usage <= 0xE7,
{
}

/// The keys by their Mac virtual key code, with 0 where there is none.
pub open spec fn keys_by_mac_code() -> Seq<u16> {
    seq![
        // the letters and digits, by where they were on the first keyboard
        0x04u16, 0x16, 0x07, 0x09, 0x0B, 0x0A, 0x1D, 0x1B, 0x06, 0x19, 0x00, 0x05,
        0x14, 0x1A, 0x08, 0x15, 0x1C, 0x17, 0x1E, 0x1F, 0x20, 0x21, 0x23, 0x22,
        0x2E, 0x26, 0x24, 0x2D, 0x25, 0x27, 0x30, 0x12, 0x18, 0x2F, 0x0C, 0x13,
        0x28, 0x0F, 0x0D, 0x34, 0x0E, 0x33, 0x31, 0x36, 0x38, 0x11, 0x10, 0x37,
        // Tab, Space, grave accent, Backspace, Escape
        0x2B, 0x2C, 0x35, 0x2A, 0x00, 0x29,
        // the modifiers
        0xE7, 0xE3, 0xE1, 0x39, 0xE2, 0xE0, 0xE5, 0xE6, 0xE4,
        // no key of this table
        0x00, 0x00, 0x00, 0x00, 0x00, 0x00, 0x00, 0x00, 0x00, 0x00, 0x00, 0x00,
        0x00, 0x00, 0x00, 0x00, 0x00, 0x00, 0x00, 0x00, 0x00, 0x00, 0x00, 0x00,
        0x00, 0x00, 0x00, 0x00, 0x00, 0x00, 0x00, 0x00, 0x00,
        // the function keys and the keys between them
        0x3E, 0x3F, 0x40, 0x3C, 0x41, 0x42, 0x00, 0x44, 0x00, 0x00, 0x00, 0x00,
        0x00, 0x43, 0x00, 0x45, 0x00, 0x00, 0x49, 0x4A, 0x4B, 0x4C, 0x3D, 0x4D,
        0x3B, 0x4E, 0x3A,
        // the arrows
        0x50, 0x4F, 0x51, 0x52,
    ]
}

/// A key has the Mac virtual key code at which it stands among them all, and no other.
pub proof fn mac_codes_in_order(usage: u16, code: u16)
    ensures
        keys_by_mac_code().len() == 0x7F,
        mac_keycode(usage) == Some(code) <==> usage != 0 && code < 0x7F && usage
            == keys_by_mac_code()[code as int],
{
    if code < 0x7F {
        mac_code_is_listed(code as int);
        if mac_keycode(usage) == Some(code) && keys_by_mac_code()[code as int] != 0 {
            mac_keycodes_are_distinct(usage, keys_by_mac_code()[code as int]);
        }
    }
}

#[verifier::rlimit(60)]
proof fn mac_code_is_listed(i: int)
    requires
        0 <= i < 0x7F,
    ensures
        keys_by_mac_code()[i] != 0 ==> mac_keycode(keys_by_mac_code()[i]) == Some(i as u16),
        keys_by_mac_code()[i] == 0 ==> forall|usage: u16| #[trigger]
            mac_keycode(usage) != Some(i as u16),
{
    let keys = keys_by_mac_code();
    assert(keys[0] == 0x04);
    assert(keys[1] == 0x16);
    assert(keys[2] == 0x07);
    assert(keys[3] == 0x09);
    assert(keys[4] == 0x0B);
    assert(keys[5] == 0x0A);
    assert(keys[6] == 0x1D);
    assert(keys[7] == 0x1B);
    assert(keys[8] == 0x06);
    assert(keys[9] == 0x19);
    assert(keys[10] == 0x00);
    assert(keys[11] == 0x05);
    assert(keys[12] == 0x14);
    assert(keys[13] == 0x1A);
    assert(keys[14] == 0x08);
    assert(keys[15] == 0x15);
    assert(keys[16] == 0x1C);
    assert(keys[17] == 0x17);
    assert(keys[18] == 0x1E);
    assert(keys[19] == 0x1F);
    assert(keys[20] == 0x20);
    assert(keys[21] == 0x21);
    assert(keys[22] == 0x23);
    assert(keys[23] == 0x22);
    assert(keys[24] == 0x2E);
    assert(keys[25] == 0x26);
    assert(keys[26] == 0x24);
    assert(keys[27] == 0x2D);
    assert(keys[28] == 0x25);
    assert(keys[29] == 0x27);
    assert(keys[30] == 0x30);
    assert(keys[31] == 0x12);
    assert(keys[32] == 0x18);
    assert(keys[33] == 0x2F);
    assert(keys[34] == 0x0C);
    assert(keys[35] == 0x13);
    assert(keys[36] == 0x28);
    assert(keys[37] == 0x0F);
    assert(keys[38] == 0x0D);
    assert(keys[39] == 0x34);
    assert(keys[40] == 0x0E);
    assert(keys[41] == 0x33);
    assert(keys[42] == 0x31);
    assert(keys[43] == 0x36);
    assert(keys[44] == 0x38);
    assert(keys[45] == 0x11);
    assert(keys[46] == 0x10);
    assert(keys[47] == 0x37);
    assert(keys[48] == 0x2B);
    assert(keys[49] == 0x2C);
    assert(keys[50] == 0x35);
    assert(keys[51] == 0x2A);
    assert(keys[52] == 0x00);
    assert(keys[53] == 0x29);
    assert(keys[54] == 0xE7);
    assert(keys[55] == 0xE3);
    assert(keys[56] == 0xE1);
    assert(keys[57] == 0x39);
    assert(keys[58] == 0xE2);
    assert(keys[59] == 0xE0);
    assert(keys[60] == 0xE5);
    assert(keys[61] == 0xE6);
    assert(keys[62] == 0xE4);
    assert(keys[63] == 0x00);
    assert(keys[64] == 0x00);
    assert(keys[65] == 0x00);
    assert(keys[66] == 0x00);
    assert(keys[67] == 0x00);
    assert(keys[68] == 0x00);
    assert(keys[69] == 0x00);
    assert(keys[70] == 0x00);
    assert(keys[71] == 0x00);
    assert(keys[72] == 0x00);
    assert(keys[73] == 0x00);
    assert(keys[74] == 0x00);
    assert(keys[75] == 0x00);
    assert(keys[76] == 0x00);
    assert(keys[77] == 0x00);
    assert(keys[78] == 0x00);
    assert(keys[79] == 0x00);
    assert(keys[80] == 0x00);
    assert(keys[81] == 0x00);
    assert(keys[82] == 0x00);
    assert(keys[83] == 0x00);
    assert(keys[84] == 0x00);
    assert(keys[85] == 0x00);
    assert(keys[86] == 0x00);
    assert(keys[87] == 0x00);
    assert(keys[88] == 0x00);
    assert(keys[89] == 0x00);
    assert(keys[90] == 0x00);
    assert(keys[91] == 0x00);
    assert(keys[92] == 0x00);
    assert(keys[93] == 0x00);
    assert(keys[94] == 0x00);
    assert(keys[95] == 0x00);
    assert(keys[96] == 0x3E);
    assert(keys[97] == 0x3F);
    assert(keys[98] == 0x40);
    assert(keys[99] == 0x3C);
    assert(keys[100] == 0x41);
    assert(keys[101] == 0x42);
    assert(keys[102] == 0x00);
    assert(keys[103] == 0x44);
    assert(keys[104] == 0x00);
    assert(keys[105] == 0x00);
    assert(keys[106] == 0x00);
    assert(keys[107] == 0x00);
    assert(keys[108] == 0x00);
    assert(keys[109] == 0x43);
    assert(keys[110] == 0x00);
    assert(keys[111] == 0x45);
    assert(keys[112] == 0x00);
    assert(keys[113] == 0x00);
    assert(keys[114] == 0x49);
    assert(keys[115] == 0x4A);
    assert(keys[116] == 0x4B);
    assert(keys[117] == 0x4C);
    assert(keys[118] == 0x3D);
    assert(keys[119] == 0x4D);
    assert(keys[120] == 0x3B);
    assert(keys[121] == 0x4E);
    assert(keys[122] == 0x3A);
    assert(keys[123] == 0x50);
    assert(keys[124] == 0x4F);
    assert(keys[125] == 0x51);
    assert(keys[126] == 0x52);
}

} // verus!

//! What is injected on the controlled machine for each event.

use crate::coord::Coord;
use crate::event::{Direction, Event, MouseButton};
use crate::keymap;
use vstd::prelude::*;

verus! {

/// A key as an injector knows it. A printable key is named by the character on its
/// lower half; Shift is injected as a key of its own.
#[derive(Debug, Clone, Copy, PartialEq, Eq, Structural)]
pub enum Key {
    Unicode(char),
    /// A function key, from 1 to 12.
    Function(u8),
    Return,
    Escape,
    Backspace,
    Tab,
    Space,
    Delete,
    CapsLock,
    /// Stands in for Insert, which injectors on a Mac do not have.
    Help,
    Home,
    PageUp,
    End,
    PageDown,
    RightArrow,
    LeftArrow,
    DownArrow,
    UpArrow,
    LControl,
    LShift,
    RControl,
    RShift,
    /// Either Alt key: injectors do not tell the two apart.
    Alt,
    /// Either Meta key: injectors do not tell the two apart.
    Meta,
}

/// Which way a scroll goes.
#[derive(Debug, Clone, Copy, PartialEq, Eq, Structural)]
pub enum Axis {
    Vertical,
    Horizontal,
}

/// One call of the injector.
#[derive(Debug, Clone, Copy, PartialEq)]
pub enum Injection {
    /// Put the cursor at this point, normalised to the screen.
    MoveTo { x: Coord, y: Coord },
    /// Displace the cursor by this many points.
    MoveBy { dx: Coord, dy: Coord },
    Button { button: MouseButton, dir: Direction },
    /// Scroll by this many notches.
    Scroll { notches: i32, axis: Axis },
    Key { key: Key, dir: Direction },
}

/// The symbol on the lower half of the key with this usage.
pub open spec fn symbol(usage: u16) -> Option<char> {
    match usage {
        0x2D => Some('-'),
        0x2E => Some('='),
        0x2F => Some('['),
        0x30 => Some(']'),
        0x31 => Some('\\'),
        0x33 => Some(';'),
        0x34 => Some('\''),
        0x35 => Some('`'),
        0x36 => Some(','),
        0x37 => Some('.'),
        0x38 => Some('/'),
        _ => None,
    }
}

/// The key with this usage among those that print nothing and are no function key.
pub open spec fn named_key(usage: u16) -> Option<Key> {
    match usage {
        0x28 => Some(Key::Return),
        0x29 => Some(Key::Escape),
        0x2A => Some(Key::Backspace),
        0x2B => Some(Key::Tab),
        0x2C => Some(Key::Space),
        0x39 => Some(Key::CapsLock),
        0x49 => Some(Key::Help),
        0x4A => Some(Key::Home),
        0x4B => Some(Key::PageUp),
        0x4C => Some(Key::Delete),
        0x4D => Some(Key::End),
        0x4E => Some(Key::PageDown),
        0x4F => Some(Key::RightArrow),
        0x50 => Some(Key::LeftArrow),
        0x51 => Some(Key::DownArrow),
        0x52 => Some(Key::UpArrow),
        0xE0 => Some(Key::LControl),
        0xE1 => Some(Key::LShift),
        0xE2 => Some(Key::Alt),
        0xE3 => Some(Key::Meta),
        0xE4 => Some(Key::RControl),
        0xE5 => Some(Key::RShift),
        0xE6 => Some(Key::Alt),
        0xE7 => Some(Key::Meta),
        _ => None,
    }
}

/// The key that is injected for a usage: the letters are 0x04 to 0x1D in alphabetic
/// order, the digits 1 to 9 are 0x1E to 0x26 with 0 behind them, and the function
/// keys 0x3A to 0x45.
pub open spec fn key_of(usage: u16) -> Option<Key> {
    if 0x04 <= usage <= 0x1D {
        Some(Key::Unicode(('a' as u32 + (usage - 0x04)) as char))
    } else if 0x1E <= usage <= 0x26 {
        Some(Key::Unicode(('1' as u32 + (usage - 0x1E)) as char))
    } else if usage == 0x27 {
        Some(Key::Unicode('0'))
    } else if 0x3A <= usage <= 0x45 {
        Some(Key::Function((usage - 0x39) as u8))
    } else if symbol(usage) is Some {
        Some(Key::Unicode(symbol(usage)->0))
    } else {
        named_key(usage)
    }
}

/// The key that is injected for a usage; `None` where the injector has no such key.
pub fn hid_to_key(usage: u16) -> (r: Option<Key>)
    ensures
        r == key_of(usage),
{
    match usage {
        0x04 => Some(Key::Unicode('a')),
        0x05 => Some(Key::Unicode('b')),
        0x06 => Some(Key::Unicode('c')),
        0x07 => Some(Key::Unicode('d')),
        0x08 => Some(Key::Unicode('e')),
        0x09 => Some(Key::Unicode('f')),
        0x0A => Some(Key::Unicode('g')),
        0x0B => Some(Key::Unicode('h')),
        0x0C => Some(Key::Unicode('i')),
        0x0D => Some(Key::Unicode('j')),
        0x0E => Some(Key::Unicode('k')),
        0x0F => Some(Key::Unicode('l')),
        0x10 => Some(Key::Unicode('m')),
        0x11 => Some(Key::Unicode('n')),
        0x12 => Some(Key::Unicode('o')),
        0x13 => Some(Key::Unicode('p')),
        0x14 => Some(Key::Unicode('q')),
        0x15 => Some(Key::Unicode('r')),
        0x16 => Some(Key::Unicode('s')),
        0x17 => Some(Key::Unicode('t')),
        0x18 => Some(Key::Unicode('u')),
        0x19 => Some(Key::Unicode('v')),
        0x1A => Some(Key::Unicode('w')),
        0x1B => Some(Key::Unicode('x')),
        0x1C => Some(Key::Unicode('y')),
        0x1D => Some(Key::Unicode('z')),
        0x1E => Some(Key::Unicode('1')),
        0x1F => Some(Key::Unicode('2')),
        0x20 => Some(Key::Unicode('3')),
        0x21 => Some(Key::Unicode('4')),
        0x22 => Some(Key::Unicode('5')),
        0x23 => Some(Key::Unicode('6')),
        0x24 => Some(Key::Unicode('7')),
        0x25 => Some(Key::Unicode('8')),
        0x26 => Some(Key::Unicode('9')),
        0x27 => Some(Key::Unicode('0')),
        0x28 => Some(Key::Return),
        0x29 => Some(Key::Escape),
        0x2A => Some(Key::Backspace),
        0x2B => Some(Key::Tab),
        0x2C => Some(Key::Space),
        0x2D => Some(Key::Unicode('-')),
        0x2E => Some(Key::Unicode('=')),
        0x2F => Some(Key::Unicode('[')),
        0x30 => Some(Key::Unicode(']')),
        0x31 => Some(Key::Unicode('\\')),
        0x33 => Some(Key::Unicode(';')),
        0x34 => Some(Key::Unicode('\'')),
        0x35 => Some(Key::Unicode('`')),
        0x36 => Some(Key::Unicode(',')),
        0x37 => Some(Key::Unicode('.')),
        0x38 => Some(Key::Unicode('/')),
        0x39 => Some(Key::CapsLock),
        0x3A => Some(Key::Function(1)),
        0x3B => Some(Key::Function(2)),
        0x3C => Some(Key::Function(3)),
        0x3D => Some(Key::Function(4)),
        0x3E => Some(Key::Function(5)),
        0x3F => Some(Key::Function(6)),
        0x40 => Some(Key::Function(7)),
        0x41 => Some(Key::Function(8)),
        0x42 => Some(Key::Function(9)),
        0x43 => Some(Key::Function(10)),
        0x44 => Some(Key::Function(11)),
        0x45 => Some(Key::Function(12)),
        0x49 => Some(Key::Help),
        0x4A => Some(Key::Home),
        0x4B => Some(Key::PageUp),
        0x4C => Some(Key::Delete),
        0x4D => Some(Key::End),
        0x4E => Some(Key::PageDown),
        0x4F => Some(Key::RightArrow),
        0x50 => Some(Key::LeftArrow),
        0x51 => Some(Key::DownArrow),
        0x52 => Some(Key::UpArrow),
        0xE0 => Some(Key::LControl),
        0xE1 => Some(Key::LShift),
        0xE2 => Some(Key::Alt),
        0xE3 => Some(Key::Meta),
        0xE4 => Some(Key::RControl),
        0xE5 => Some(Key::RShift),
        0xE6 => Some(Key::Alt),
        0xE7 => Some(Key::Meta),
        _ => None,
    }
}

/// Every key that a Mac keyboard has can be injected.
pub proof fn mac_keys_can_be_injected(usage: u16)
    requires
        keymap::mac_keycode(usage) is Some,
    ensures
        key_of(usage) is Some,
{
}

/// Two usages are injected as one key only where they are the two Alt keys or the
/// two Meta keys.
pub proof fn only_alt_and_meta_are_shared(a: u16, b: u16)
    requires
        key_of(a) is Some,
        key_of(a) == key_of(b),
    ensures
        a == b || key_of(a) == Some(Key::Alt) || key_of(a) == Some(Key::Meta),
{
}

/// `v` in whole notches, rounded towards zero.
pub open spec fn notches(v: i32) -> int {
    if v >= 0 {
        v as int / 120
    } else {
        -((-v) / 120)
    }
}

fn to_notches(v: i32) -> (r: i32)
    ensures
        r == notches(v),
{
    v / 120
}

/// What is injected for an event. A key that the injector does not have, and an axis
/// that is not scrolled, take no call.
pub open spec fn injections(ev: Event) -> Seq<Injection> {
    match ev {
        Event::MotionAbs { x, y } => seq![Injection::MoveTo { x, y }],
        Event::MotionRel { dx, dy } => seq![Injection::MoveBy { dx, dy }],
        Event::Button { button, dir } => seq![Injection::Button { button, dir }],
        Event::Scroll { dx, dy } => scroll(dy, Axis::Vertical) + scroll(dx, Axis::Horizontal),
        Event::Key { usage, dir } => match key_of(usage) {
            Some(key) => seq![Injection::Key { key, dir }],
            None => Seq::empty(),
        },
    }
}

/// What is injected for scrolling by `v` along `axis`.
pub open spec fn scroll(v: i32, axis: Axis) -> Seq<Injection> {
    if v != 0 {
        seq![Injection::Scroll { notches: notches(v) as i32, axis }]
    } else {
        Seq::empty()
    }
}

/// `s` without the first occurrence of `e`.
pub open spec fn without<T>(s: Seq<T>, e: T) -> Seq<T> {
    if s.contains(e) {
        s.remove(s.index_of_first(e)->0)
    } else {
        s
    }
}

/// The usages that are held after an event, in the order in which they went down.
pub open spec fn keys_after(held: Seq<u16>, ev: Event) -> Seq<u16> {
    match ev {
        Event::Key { usage, dir: Direction::Press } => if key_of(usage) is Some
            && !held.contains(usage) {
            held.push(usage)
        } else {
            held
        },
        Event::Key { usage, dir: Direction::Release } => without(held, usage),
        _ => held,
    }
}

/// The buttons that are held after an event, in the order in which they went down.
pub open spec fn buttons_after(held: Seq<MouseButton>, ev: Event) -> Seq<MouseButton> {
    match ev {
        Event::Button { button, dir: Direction::Press } => if !held.contains(button) {
            held.push(button)
        } else {
            held
        },
        Event::Button { button, dir: Direction::Release } => without(held, button),
        _ => held,
    }
}

/// The releases of these keys, in order.
pub open spec fn key_releases(held: Seq<u16>) -> Seq<Injection>
    decreases held.len(),
{
    if held.len() == 0 {
        Seq::empty()
    } else {
        key_releases(held.drop_last()) + injections(
            Event::Key { usage: held.last(), dir: Direction::Release },
        )
    }
}

/// The releases of these buttons, in order.
pub open spec fn button_releases(held: Seq<MouseButton>) -> Seq<Injection> {
    Seq::new(
        held.len(),
        |i: int| Injection::Button { button: held[i], dir: Direction::Release },
    )
}

/// The injector's memory: what it has pressed and not yet released. It is what lets
/// the controlled machine let go of everything when the controller leaves or is gone.
pub struct Emulator {
    keys: Vec<u16>,
    buttons: Vec<MouseButton>,
}

impl Emulator {
    /// The usages held down.
    pub closed spec fn held_keys(&self) -> Seq<u16> {
        self.keys@
    }

    /// The buttons held down.
    pub closed spec fn held_buttons(&self) -> Seq<MouseButton> {
        self.buttons@
    }

    /// Nothing is held.
    pub fn new() -> (r: Emulator)
        ensures
            r.held_keys() == Seq::<u16>::empty(),
            r.held_buttons() == Seq::<MouseButton>::empty(),
    {
        Emulator { keys: Vec::new(), buttons: Vec::new() }
    }

    /// What to inject for `ev`, in order.
    pub fn emit(&mut self, ev: &Event) -> (r: Vec<Injection>)
        ensures
            r@ == injections(*ev),
            final(self).held_keys() == keys_after(old(self).held_keys(), *ev),
            final(self).held_buttons() == buttons_after(old(self).held_buttons(), *ev),
    {
        let mut out: Vec<Injection> = Vec::new();
        match *ev {
            Event::MotionAbs { x, y } => {
                out.push(Injection::MoveTo { x, y });
            },
            Event::MotionRel { dx, dy } => {
                out.push(Injection::MoveBy { dx, dy });
            },
            Event::Button { button, dir } => {
                out.push(Injection::Button { button, dir });
                match dir {
                    Direction::Press => self.hold_button(button),
                    Direction::Release => self.drop_button(button),
                }
            },
            Event::Scroll { dx, dy } => {
                if dy != 0 {
                    out.push(Injection::Scroll { notches: to_notches(dy), axis: Axis::Vertical });
                }
                if dx != 0 {
                    out.push(
                        Injection::Scroll { notches: to_notches(dx), axis: Axis::Horizontal },
                    );
                }
            },
            Event::Key { usage, dir } => {
                let key = hid_to_key(usage);
                if let Some(key) = key {
                    out.push(Injection::Key { key, dir });
                }
                match dir {
                    Direction::Press => {
                        if key.is_some() {
                            self.hold_key(usage);
                        }
                    },
                    Direction::Release => self.drop_key(usage),
                }
            },
        }
        assert(out@ =~= injections(*ev));
        out
    }

    /// What to inject to let go of everything: the keys, then the buttons.
    pub fn release_all(&mut self) -> (r: Vec<Injection>)
        ensures
            r@ == key_releases(old(self).held_keys()) + button_releases(old(self).held_buttons()),
            final(self).held_keys() == Seq::<u16>::empty(),
            final(self).held_buttons() == Seq::<MouseButton>::empty(),
    {
        let mut out: Vec<Injection> = Vec::new();
        let mut i: usize = 0;
        while i < self.keys.len()
            invariant
                i <= self.keys@.len(),
                *self == *old(self),
                out@ == key_releases(self.keys@.take(i as int)),
            decreases self.keys@.len() - i,
        {
            assert(self.keys@.take(i + 1).drop_last() =~= self.keys@.take(i as int));
            if let Some(key) = hid_to_key(self.keys[i]) {
                out.push(Injection::Key { key, dir: Direction::Release });
            }
            i = i + 1;
            assert(out@ =~= key_releases(self.keys@.take(i as int)));
        }
        assert(self.keys@.take(i as int) =~= self.keys@);
        let ghost keys = out@;
        let mut j: usize = 0;
        while j < self.buttons.len()
            invariant
                j <= self.buttons@.len(),
                *self == *old(self),
                out@ == keys + button_releases(self.buttons@.take(j as int)),
            decreases self.buttons@.len() - j,
        {
            out.push(Injection::Button { button: self.buttons[j], dir: Direction::Release });
            j = j + 1;
            assert(out@ =~= keys + button_releases(self.buttons@.take(j as int)));
        }
        assert(self.buttons@.take(j as int) =~= self.buttons@);
        self.keys = Vec::new();
        self.buttons = Vec::new();
        out
    }

    fn hold_key(&mut self, usage: u16)
        ensures
            final(self).keys@ == (if old(self).keys@.contains(usage) {
                old(self).keys@
            } else {
                old(self).keys@.push(usage)
            }),
            final(self).buttons == old(self).buttons,
    {
        let mut i: usize = 0;
        while i < self.keys.len()
            invariant
                i <= self.keys@.len(),
                *self == *old(self),
                forall|k: int| 0 <= k < i ==> self.keys@[k] != usage,
            decreases self.keys@.len() - i,
        {
            if self.keys[i] == usage {
                return;
            }
            i = i + 1;
        }
        self.keys.push(usage);
    }

    fn drop_key(&mut self, usage: u16)
        ensures
            final(self).keys@ == without(old(self).keys@, usage),
            final(self).buttons == old(self).buttons,
    {
        let mut i: usize = 0;
        while i < self.keys.len()
            invariant
                i <= self.keys@.len(),
                *self == *old(self),
                forall|k: int| 0 <= k < i ==> self.keys@[k] != usage,
            decreases self.keys@.len() - i,
        {
            if self.keys[i] == usage {
                proof {
                    first_is(self.keys@, usage, i as int);
                }
                let _ = self.keys.remove(i);
                return;
            }
            i = i + 1;
        }
    }

    fn hold_button(&mut self, button: MouseButton)
        ensures
            final(self).buttons@ == (if old(self).buttons@.contains(button) {
                old(self).buttons@
            } else {
                old(self).buttons@.push(button)
            }),
            final(self).keys == old(self).keys,
    {
        let mut i: usize = 0;
        while i < self.buttons.len()
            invariant
                i <= self.buttons@.len(),
                *self == *old(self),
                forall|k: int| 0 <= k < i ==> self.buttons@[k] != button,
            decreases self.buttons@.len() - i,
        {
            if self.buttons[i] == button {
                return;
            }
            i = i + 1;
        }
        self.buttons.push(button);
    }

    fn drop_button(&mut self, button: MouseButton)
        ensures
            final(self).buttons@ == without(old(self).buttons@, button),
            final(self).keys == old(self).keys,
    {
        let mut i: usize = 0;
        while i < self.buttons.len()
            invariant
                i <= self.buttons@.len(),
                *self == *old(self),
                forall|k: int| 0 <= k < i ==> self.buttons@[k] != button,
            decreases self.buttons@.len() - i,
        {
            if self.buttons[i] == button {
                proof {
                    first_is(self.buttons@, button, i as int);
                }
                let _ = self.buttons.remove(i);
                return;
            }
            i = i + 1;
        }
    }
}

proof fn first_is<T>(s: Seq<T>, e: T, i: int)
    requires
        0 <= i < s.len(),
        s[i] == e,
        forall|k: int| 0 <= k < i ==> s[k] != e,
    ensures
        s.contains(e),
        s.index_of_first(e) == Some(i),
{
    s.index_of_first_ensures(e);
}

/// Whether `key` is down after these injections: the last one about it pressed it.
pub open spec fn key_down(done: Seq<Injection>, key: Key) -> bool
    decreases done.len(),
{
    if done.len() == 0 {
        false
    } else {
        match done.last() {
            Injection::Key { key: k, dir } if k == key => dir == Direction::Press,
            _ => key_down(done.drop_last(), key),
        }
    }
}

/// Whether `button` is down after these injections.
pub open spec fn button_down(done: Seq<Injection>, button: MouseButton) -> bool
    decreases done.len(),
{
    if done.len() == 0 {
        false
    } else {
        match done.last() {
            Injection::Button { button: b, dir } if b == button => dir == Direction::Press,
            _ => button_down(done.drop_last(), button),
        }
    }
}

/// Everything that is injected for these events, one after the other.
pub open spec fn injected(events: Seq<Event>) -> Seq<Injection>
    decreases events.len(),
{
    if events.len() == 0 {
        Seq::empty()
    } else {
        injected(events.drop_last()) + injections(events.last())
    }
}

/// The usages held after these events, where `held` was held before.
pub open spec fn keys_from(held: Seq<u16>, events: Seq<Event>) -> Seq<u16>
    decreases events.len(),
{
    if events.len() == 0 {
        held
    } else {
        keys_after(keys_from(held, events.drop_last()), events.last())
    }
}

/// The buttons held after these events, where `held` was held before.
pub open spec fn buttons_from(held: Seq<MouseButton>, events: Seq<Event>) -> Seq<MouseButton>
    decreases events.len(),
{
    if events.len() == 0 {
        held
    } else {
        buttons_after(buttons_from(held, events.drop_last()), events.last())
    }
}

/// Some usage in `held` is injected as `key`.
pub open spec fn covers(held: Seq<u16>, key: Key) -> bool {
    exists|i: int| 0 <= i < held.len() && key_of(#[trigger] held[i]) == Some(key)
}

proof fn without_keeps<T>(s: Seq<T>, e: T, x: T)
    requires
        s.contains(x),
        x != e,
    ensures
        without(s, e).contains(x),
{
    if s.contains(e) {
        s.index_of_first_ensures(e);
        let i = s.index_of_first(e)->0;
        let j = choose|j: int| 0 <= j < s.len() && s[j] == x;
        let t = s.remove(i);
        if j < i {
            assert(t[j] == x);
        } else {
            assert(t[j - 1] == x);
        }
    }
}

proof fn key_down_append_other(done: Seq<Injection>, more: Seq<Injection>, key: Key)
    requires
        forall|i: int| 0 <= i < more.len() ==> !(#[trigger] more[i] is Key),
    ensures
        key_down(done + more, key) == key_down(done, key),
    decreases more.len(),
{
    if more.len() == 0 {
        assert(done + more =~= done);
    } else {
        assert((done + more).drop_last() =~= done + more.drop_last());
        assert((done + more).last() == more[more.len() - 1]);
        key_down_append_other(done, more.drop_last(), key);
    }
}

proof fn button_down_append_keys(done: Seq<Injection>, more: Seq<Injection>, button: MouseButton)
    requires
        forall|i: int| 0 <= i < more.len() ==> !(#[trigger] more[i] is Button),
    ensures
        button_down(done + more, button) == button_down(done, button),
    decreases more.len(),
{
    if more.len() == 0 {
        assert(done + more =~= done);
    } else {
        assert((done + more).drop_last() =~= done + more.drop_last());
        assert((done + more).last() == more[more.len() - 1]);
        button_down_append_keys(done, more.drop_last(), button);
    }
}

/// The memory misses nothing: what is down after `done` is among what is held.
pub open spec fn remembers(
    done: Seq<Injection>,
    keys: Seq<u16>,
    buttons: Seq<MouseButton>,
    key: Key,
    button: MouseButton,
) -> bool {
    &&& key_down(done, key) ==> covers(keys, key)
    &&& button_down(done, button) ==> buttons.contains(button)
}

/// Injecting an event keeps the memory complete.
pub proof fn emit_remembers(
    done: Seq<Injection>,
    keys: Seq<u16>,
    buttons: Seq<MouseButton>,
    ev: Event,
    key: Key,
    button: MouseButton,
)
    requires
        remembers(done, keys, buttons, key, button),
    ensures
        remembers(
            done + injections(ev),
            keys_after(keys, ev),
            buttons_after(buttons, ev),
            key,
            button,
        ),
{
    let all = done + injections(ev);
    let now = keys_after(keys, ev);
    match ev {
        Event::Key { usage, dir } => {
            button_down_append_keys(done, injections(ev), button);
            match key_of(usage) {
                Some(k) => {
                    assert(all.drop_last() =~= done);
                    assert(all.last() == (Injection::Key { key: k, dir }));
                },
                None => {
                    assert(all =~= done);
                },
            }
            if key_down(all, key) {
                match dir {
                    Direction::Press => {
                        if key_of(usage) == Some(key) {
                            if keys.contains(usage) {
                                let i = choose|i: int| 0 <= i < keys.len() && keys[i] == usage;
                                assert(key_of(now[i]) == Some(key));
                            } else {
                                assert(key_of(now[keys.len() as int]) == Some(key));
                            }
                        } else {
                            let i = choose|i: int|
                                0 <= i < keys.len() && key_of(#[trigger] keys[i]) == Some(key);
                            assert(now[i] == keys[i]);
                        }
                    },
                    Direction::Release => {
                        let i = choose|i: int|
                            0 <= i < keys.len() && key_of(#[trigger] keys[i]) == Some(key);
                        without_keeps(keys, usage, keys[i]);
                        let j = choose|j: int| 0 <= j < now.len() && now[j] == keys[i];
                        assert(key_of(now[j]) == Some(key));
                    },
                }
            }
        },
        Event::Button { button: b, dir } => {
            key_down_append_other(done, injections(ev), key);
            assert(all.drop_last() =~= done);
            if button_down(all, button) {
                match dir {
                    Direction::Press => {
                        if b == button {
                            if !buttons.contains(b) {
                                assert(buttons.push(b)[buttons.len() as int] == b);
                            }
                        } else {
                            let i = choose|i: int| 0 <= i < buttons.len() && buttons[i] == button;
                            assert(buttons_after(buttons, ev)[i] == button);
                        }
                    },
                    Direction::Release => {
                        without_keeps(buttons, b, button);
                    },
                }
            }
        },
        _ => {
            key_down_append_other(done, injections(ev), key);
            button_down_append_keys(done, injections(ev), button);
        },
    }
}

/// Injecting some events keeps the memory complete.
pub proof fn memory_is_complete(
    done: Seq<Injection>,
    keys: Seq<u16>,
    buttons: Seq<MouseButton>,
    events: Seq<Event>,
    key: Key,
    button: MouseButton,
)
    requires
        remembers(done, keys, buttons, key, button),
    ensures
        remembers(
            done + injected(events),
            keys_from(keys, events),
            buttons_from(buttons, events),
            key,
            button,
        ),
    decreases events.len(),
{
    if events.len() > 0 {
        let past = events.drop_last();
        memory_is_complete(done, keys, buttons, past, key, button);
        emit_remembers(
            done + injected(past),
            keys_from(keys, past),
            buttons_from(buttons, past),
            events.last(),
            key,
            button,
        );
        assert(done + injected(events) =~= (done + injected(past)) + injections(events.last()));
    } else {
        assert(done + injected(events) =~= done);
    }
}

proof fn key_releases_are_keys(held: Seq<u16>)
    ensures
        forall|i: int|
            0 <= i < key_releases(held).len() ==> (#[trigger] key_releases(held)[i]) is Key,
    decreases held.len(),
{
    if held.len() > 0 {
        key_releases_are_keys(held.drop_last());
    }
}

proof fn key_releases_release(done: Seq<Injection>, held: Seq<u16>, key: Key)
    requires
        key_down(done, key) ==> covers(held, key),
    ensures
        !key_down(done + key_releases(held), key),
    decreases held.len(),
{
    if held.len() == 0 {
        assert(done + key_releases(held) =~= done);
    } else {
        let some = held.drop_last();
        let last = injections(Event::Key { usage: held.last(), dir: Direction::Release });
        let all = done + key_releases(held);
        assert(all =~= (done + key_releases(some)) + last);
        match key_of(held.last()) {
            Some(k) => {
                assert(all.drop_last() =~= done + key_releases(some));
            },
            None => {
                assert(all =~= done + key_releases(some));
            },
        }
        if key_of(held.last()) != Some(key) {
            if key_down(done, key) {
                let i = choose|i: int| 0 <= i < held.len() && key_of(#[trigger] held[i]) == Some(key);
                assert(some[i] == held[i]);
            }
            key_releases_release(done, some, key);
        }
    }
}

proof fn button_releases_release(done: Seq<Injection>, held: Seq<MouseButton>, button: MouseButton)
    requires
        button_down(done, button) ==> held.contains(button),
    ensures
        !button_down(done + button_releases(held), button),
    decreases held.len(),
{
    if held.len() == 0 {
        assert(done + button_releases(held) =~= done);
    } else {
        let all = done + button_releases(held);
        assert(all.drop_last() =~= done + button_releases(held.drop_last()));
        if held.last() != button {
            if button_down(done, button) {
                let i = choose|i: int| 0 <= i < held.len() && held[i] == button;
                assert(held.drop_last()[i] == button);
            }
            button_releases_release(done, held.drop_last(), button);
        }
    }
}

/// Letting go of everything that is remembered leaves no key and no button down.
pub proof fn nothing_stays_down(
    done: Seq<Injection>,
    keys: Seq<u16>,
    buttons: Seq<MouseButton>,
    key: Key,
    button: MouseButton,
)
    requires
        remembers(done, keys, buttons, key, button),
    ensures
        !key_down(done + (key_releases(keys) + button_releases(buttons)), key),
        !button_down(done + (key_releases(keys) + button_releases(buttons)), button),
{
    let ks = key_releases(keys);
    let bs = button_releases(buttons);
    assert(done + (ks + bs) =~= (done + ks) + bs);
    key_releases_release(done, keys, key);
    key_down_append_other(done + ks, bs, key);
    key_releases_are_keys(keys);
    button_down_append_keys(done, ks, button);
    button_releases_release(done + ks, buttons, button);
}

/// Each key that prints nothing is injected for the one usage that the USB tables give
/// it, and for no other; Alt and Meta for the one on either side.
pub proof fn named_keys_by_usage(usage: u16)
    ensures
        key_of(usage) == Some(Key::Return) <==> usage == 0x28,
        key_of(usage) == Some(Key::Escape) <==> usage == 0x29,
        key_of(usage) == Some(Key::Backspace) <==> usage == 0x2A,
        key_of(usage) == Some(Key::Tab) <==> usage == 0x2B,
        key_of(usage) == Some(Key::Space) <==> usage == 0x2C,
        key_of(usage) == Some(Key::CapsLock) <==> usage == 0x39,
        key_of(usage) == Some(Key::Help) <==> usage == 0x49,
        key_of(usage) == Some(Key::Home) <==> usage == 0x4A,
        key_of(usage) == Some(Key::PageUp) <==> usage == 0x4B,
        key_of(usage) == Some(Key::Delete) <==> usage == 0x4C,
        key_of(usage) == Some(Key::End) <==> usage == 0x4D,
        key_of(usage) == Some(Key::PageDown) <==> usage == 0x4E,
        key_of(usage) == Some(Key::RightArrow) <==> usage == 0x4F,
        key_of(usage) == Some(Key::LeftArrow) <==> usage == 0x50,
        key_of(usage) == Some(Key::DownArrow) <==> usage == 0x51,
        key_of(usage) == Some(Key::UpArrow) <==> usage == 0x52,
        key_of(usage) == Some(Key::LControl) <==> usage == 0xE0,
        key_of(usage) == Some(Key::LShift) <==> usage == 0xE1,
        key_of(usage) == Some(Key::RControl) <==> usage == 0xE4,
        key_of(usage) == Some(Key::RShift) <==> usage == 0xE5,
        key_of(usage) == Some(Key::Alt) <==> usage == 0xE2 || usage == 0xE6,
        key_of(usage) == Some(Key::Meta) <==> usage == 0xE3 || usage == 0xE7,
{
}

/// Each key that prints is injected as the character on its lower half, as the USB
/// tables name it: the letters in alphabetic order, the digits from 1 to 9 with 0
/// behind them, and the eleven symbols. The function keys are numbered from 1.
pub proof fn printing_keys_by_usage(usage: u16)
    ensures
        0x04 <= usage <= 0x1D ==> (key_of(usage) matches Some(Key::Unicode(c)) && 'a' <= c <= 'z'
            && c as int - 'a' as int == usage - 0x04),
        0x1E <= usage <= 0x27 ==> (key_of(usage) matches Some(Key::Unicode(c)) && '0' <= c <= '9'
            && c as int - '0' as int == (usage - 0x1D) % 10),
        0x3A <= usage <= 0x45 ==> (key_of(usage) matches Some(Key::Function(n)) && n == usage
            - 0x39),
        key_of(usage) == Some(Key::Unicode('-')) <==> usage == 0x2D,
        key_of(usage) == Some(Key::Unicode('=')) <==> usage == 0x2E,
        key_of(usage) == Some(Key::Unicode('[')) <==> usage == 0x2F,
        key_of(usage) == Some(Key::Unicode(']')) <==> usage == 0x30,
        key_of(usage) == Some(Key::Unicode('\\')) <==> usage == 0x31,
        key_of(usage) == Some(Key::Unicode(';')) <==> usage == 0x33,
        key_of(usage) == Some(Key::Unicode('\'')) <==> usage == 0x34,
        key_of(usage) == Some(Key::Unicode('`')) <==> usage == 0x35,
        key_of(usage) == Some(Key::Unicode(',')) <==> usage == 0x36,
        key_of(usage) == Some(Key::Unicode('.')) <==> usage == 0x37,
        key_of(usage) == Some(Key::Unicode('/')) <==> usage == 0x38,
{
}

/// Every usage from the letters to the Up arrow can be injected but seven, and every
/// modifier; nothing else can.
pub proof fn what_can_be_injected(usage: u16)
    ensures
        key_of(usage) is Some <==> 0x04 <= usage <= 0x52 && usage != 0x32 && !(0x46 <= usage
            <= 0x48) || 0xE0 <= usage <= 0xE7,
{
}

/// Everything but scrolling is injected as it came, in one call: the same key or
/// button the same way, the same position, the same displacement. A key that the
/// injector does not have takes no call.
pub proof fn injected_as_it_came(ev: Event)
    ensures
        ev matches Event::Key { usage, dir } ==> match key_of(usage) {
            Some(key) => injections(ev).len() == 1 && injections(ev)[0] == (Injection::Key {
                key,
                dir,
            }),
            None => injections(ev).len() == 0,
        },
        ev matches Event::Button { button, dir } ==> injections(ev).len() == 1 && injections(ev)[0]
            == (Injection::Button { button, dir }),
        ev matches Event::MotionAbs { x, y } ==> injections(ev).len() == 1 && injections(ev)[0]
            == (Injection::MoveTo { x, y }),
        ev matches Event::MotionRel { dx, dy } ==> injections(ev).len() == 1 && injections(ev)[0]
            == (Injection::MoveBy { dx, dy }),
{
}

/// Scrolling takes one call for each axis that is scrolled at all, and by as many whole
/// notches of 120 as there are in it: the same way, never by more, and by less than a
/// notch less.
pub proof fn scrolled_by_whole_notches(dx: i32, dy: i32, axis: Axis, n: i32)
    ensures
        ({
            let all = injections(Event::Scroll { dx, dy });
            let v = if axis == Axis::Vertical {
                dy
            } else {
                dx
            };
            let it = Injection::Scroll { notches: n, axis };
            &&& all.contains(it) <==> v != 0 && (if v > 0 {
                0 <= n && n * 120 <= v < (n + 1) * 120
            } else {
                n <= 0 && (n - 1) * 120 < v <= n * 120
            })
            &&& all.len() == (if dx != 0 {
                1int
            } else {
                0int
            }) + (if dy != 0 {
                1int
            } else {
                0int
            })
            &&& dx != 0 && dy != 0 ==> (all[0] matches Injection::Scroll { axis: a, .. } && a
                == Axis::Vertical)
        }),
{
    let all = injections(Event::Scroll { dx, dy });
    let ns = scroll(dy, Axis::Vertical);
    let hs = scroll(dx, Axis::Horizontal);
    assert(all =~= ns + hs);
    if dy != 0 {
        assert(all[0] == (Injection::Scroll { notches: notches(dy) as i32, axis: Axis::Vertical }));
    }
    if dx != 0 {
        assert(all[all.len() - 1] == (Injection::Scroll {
            notches: notches(dx) as i32,
            axis: Axis::Horizontal,
        }));
    }
}

/// The last change of a key among these events.
pub open spec fn last_key_change(events: Seq<Event>, usage: u16) -> Option<Direction>
    decreases events.len(),
{
    if events.len() == 0 {
        None
    } else {
        match events.last() {
            Event::Key { usage: u, dir } if u == usage => Some(dir),
            _ => last_key_change(events.drop_last(), usage),
        }
    }
}

/// The last change of a button among these events.
pub open spec fn last_button_change(events: Seq<Event>, button: MouseButton) -> Option<Direction>
    decreases events.len(),
{
    if events.len() == 0 {
        None
    } else {
        match events.last() {
            Event::Button { button: b, dir } if b == button => Some(dir),
            _ => last_button_change(events.drop_last(), button),
        }
    }
}

proof fn without_removes<T>(s: Seq<T>, e: T, x: T)
    requires
        s.no_duplicates(),
    ensures
        without(s, e).no_duplicates(),
        without(s, e).contains(x) <==> s.contains(x) && x != e,
{
    if s.contains(e) {
        s.index_of_first_ensures(e);
        let i = s.index_of_first(e)->0;
        let t = s.remove(i);
        assert forall|j: int, k: int| 0 <= j < t.len() && 0 <= k < t.len() && j != k implies t[j]
            != t[k] by {
            let a = if j < i {
                j
            } else {
                j + 1
            };
            let b = if k < i {
                k
            } else {
                k + 1
            };
            assert(t[j] == s[a] && t[k] == s[b]);
        }
        if t.contains(x) {
            let j = choose|j: int| 0 <= j < t.len() && t[j] == x;
            let a = if j < i {
                j
            } else {
                j + 1
            };
            assert(s[a] == x);
        }
        if s.contains(x) && x != e {
            without_keeps(s, e, x);
        }
    }
}

proof fn pushed_once<T>(s: Seq<T>, e: T, x: T)
    requires
        s.no_duplicates(),
        !s.contains(e),
    ensures
        s.push(e).no_duplicates(),
        s.push(e).contains(x) <==> s.contains(x) || x == e,
{
    let t = s.push(e);
    assert(t[s.len() as int] == e);
    if s.contains(x) {
        let j = choose|j: int| 0 <= j < s.len() && s[j] == x;
        assert(t[j] == x);
    }
    if t.contains(x) {
        let j = choose|j: int| 0 <= j < t.len() && t[j] == x;
        if j < s.len() {
            assert(s[j] == x);
        }
    }
}

/// What is remembered as held is exactly what went down last and has not come up since,
/// each once: nothing is forgotten, and nothing that was let go of is released again.
pub proof fn held_is_what_went_down_last(events: Seq<Event>, usage: u16, button: MouseButton)
    ensures
        ({
            let keys = keys_from(Seq::empty(), events);
            let buttons = buttons_from(Seq::empty(), events);
            &&& keys.no_duplicates()
            &&& keys.contains(usage) <==> key_of(usage) is Some && last_key_change(events, usage)
                == Some(Direction::Press)
            &&& buttons.no_duplicates()
            &&& buttons.contains(button) <==> last_button_change(events, button) == Some(
                Direction::Press,
            )
        }),
    decreases events.len(),
{
    if events.len() > 0 {
        let past = events.drop_last();
        let keys = keys_from(Seq::empty(), past);
        let buttons = buttons_from(Seq::empty(), past);
        held_is_what_went_down_last(past, usage, button);
        match events.last() {
            Event::Key { usage: u, dir } => {
                held_is_what_went_down_last(past, u, button);
                if dir == Direction::Release {
                    without_removes(keys, u, usage);
                } else if key_of(u) is Some && !keys.contains(u) {
                    pushed_once(keys, u, usage);
                }
            },
            Event::Button { button: b, dir } => {
                held_is_what_went_down_last(past, usage, b);
                if dir == Direction::Release {
                    without_removes(buttons, b, button);
                } else if !buttons.contains(b) {
                    pushed_once(buttons, b, button);
                }
            },
            _ => {},
        }
    }
}

/// Letting go of what is held is one release for each key and then for each button, in
/// the order in which they went down, and nothing else.
pub proof fn releases_are_of_what_is_held(keys: Seq<u16>, buttons: Seq<MouseButton>, i: int)
    requires
        forall|k: int| 0 <= k < keys.len() ==> key_of(#[trigger] keys[k]) is Some,
    ensures
        key_releases(keys).len() == keys.len(),
        0 <= i < keys.len() ==> (key_releases(keys)[i] matches Injection::Key { key, dir }
            && key_of(keys[i]) == Some(key) && dir == Direction::Release),
        button_releases(buttons).len() == buttons.len(),
        0 <= i < buttons.len() ==> (button_releases(buttons)[i] matches Injection::Button {
            button,
            dir,
        } && button == buttons[i] && dir == Direction::Release),
    decreases keys.len(),
{
    if keys.len() > 0 {
        let some = keys.drop_last();
        assert forall|k: int| 0 <= k < some.len() implies key_of(#[trigger] some[k]) is Some by {
            assert(some[k] == keys[k]);
        }
        releases_are_of_what_is_held(some, buttons, i);
        assert(key_of(keys[keys.len() - 1]) is Some);
    }
}

/// Keys and buttons are held in the order in which they went down: one that goes down
/// comes last, and one that comes up leaves the others as they were to each other.
pub proof fn held_in_order(
    keys: Seq<u16>,
    usage: u16,
    buttons: Seq<MouseButton>,
    button: MouseButton,
    i: int,
    k: int,
)
    requires
        keys.no_duplicates(),
        buttons.no_duplicates(),
    ensures
        ({
            let down = keys_after(keys, Event::Key { usage, dir: Direction::Press });
            let up = keys_after(keys, Event::Key { usage, dir: Direction::Release });
            let found = 0 <= i < keys.len() && keys[i] == usage;
            &&& 0 <= k < keys.len() ==> down[k] == keys[k]
            &&& !keys.contains(usage) && key_of(usage) is Some ==> down.len() == keys.len() + 1
                && down.last() == usage
            &&& found ==> up.len() == keys.len() - 1
            &&& found && 0 <= k < i ==> up[k] == keys[k]
            &&& found && i < k < keys.len() ==> up[k - 1] == keys[k]
        }),
        ({
            let down = buttons_after(buttons, Event::Button { button, dir: Direction::Press });
            let up = buttons_after(buttons, Event::Button { button, dir: Direction::Release });
            let found = 0 <= i < buttons.len() && buttons[i] == button;
            &&& 0 <= k < buttons.len() ==> down[k] == buttons[k]
            &&& !buttons.contains(button) ==> down.len() == buttons.len() + 1 && down.last()
                == button
            &&& found ==> up.len() == buttons.len() - 1
            &&& found && 0 <= k < i ==> up[k] == buttons[k]
            &&& found && i < k < buttons.len() ==> up[k - 1] == buttons[k]
        }),
{
    if keys.contains(usage) {
        keys.index_of_first_ensures(usage);
    }
    if buttons.contains(button) {
        buttons.index_of_first_ensures(button);
    }
}

/// What is injected for events, and what is held after them, comes of one after the other.
pub proof fn one_after_the_other(
    ev: Event,
    some: Seq<Event>,
    more: Seq<Event>,
    keys: Seq<u16>,
    buttons: Seq<MouseButton>,
)
    ensures
        injected(Seq::empty()).len() == 0,
        injected(seq![ev]) == injections(ev),
        injected(some + more) == injected(some) + injected(more),
        keys_from(keys, Seq::empty()) == keys,
        keys_from(keys, seq![ev]) == keys_after(keys, ev),
        keys_from(keys, some + more) == keys_from(keys_from(keys, some), more),
        buttons_from(buttons, Seq::empty()) == buttons,
        buttons_from(buttons, seq![ev]) == buttons_after(buttons, ev),
        buttons_from(buttons, some + more) == buttons_from(buttons_from(buttons, some), more),
    decreases more.len(),
{
    reveal_with_fuel(injected, 2);
    reveal_with_fuel(keys_from, 2);
    reveal_with_fuel(buttons_from, 2);
    assert(seq![ev].drop_last() =~= Seq::empty());
    assert(injected(seq![ev]) =~= injections(ev));
    let all = some + more;
    if more.len() > 0 {
        one_after_the_other(ev, some, more.drop_last(), keys, buttons);
        assert(all.drop_last() =~= some + more.drop_last());
        assert(injected(all) =~= injected(some) + injected(more));
    } else {
        assert(all =~= some);
        assert(injected(all) =~= injected(some) + injected(more));
    }
}

} // verus!

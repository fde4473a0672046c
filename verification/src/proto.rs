//! The messages and their bytes.
//!
//! Reliable messages (keys, buttons, scrolling, control, clipboard text) each go
//! over a stream of their own; pointer motion goes in datagrams that carry a
//! sequence number, so that the receiver can drop what arrives late.

use crate::coord::Coord;
use crate::event::{Control, Direction, Event, Modifiers, MouseButton};
use crate::wire;
use crate::wire::DecodeError;
use vstd::arithmetic::power2::*;
use vstd::prelude::*;
use vstd::string::*;
use vstd::utf8::*;

verus! {

/// The longest clipboard text that is synchronised, in bytes. A longer one is not
/// sent at all: half a text pasted is worse than none.
pub const CLIPBOARD_MAX: usize = 0x10_0000;

/// The most that a clipboard transfer of files may hold in all, in bytes.
pub const FILES_MAX_TOTAL: u64 = 0x1000_0000;

/// The longest reliable message, and the longest header of a file transfer, that
/// a receiver takes, in bytes: the longest clipboard text and its overhead.
pub const MAX_FRAME: usize = CLIPBOARD_MAX + 64;

/// The first byte of a stream that carries one reliable message.
pub const STREAM_TAG_MSG: u8 = 0;

/// The first byte of a stream that carries files.
pub const STREAM_TAG_FILES: u8 = 1;

/// One file of a transfer: its bare name and its length in bytes.
#[derive(Debug, Clone, PartialEq, Eq)]
pub struct FileMeta {
    pub name: String,
    pub size: u64,
}

/// What a transfer of files announces before their contents.
#[derive(Debug, Clone, PartialEq, Eq)]
pub struct FilesHeader {
    pub files: Vec<FileMeta>,
}

/// A message that goes over a reliable stream.
#[derive(Debug, Clone, PartialEq)]
pub enum Reliable {
    /// Anything but `Event::MotionAbs`, which goes in datagrams.
    Input(Event),
    Control(Control),
    /// Clipboard text, in either direction.
    Clipboard(String),
}

/// Pointer motion, in a datagram.
#[derive(Debug, Clone, Copy, PartialEq)]
pub struct Motion {
    pub seq: u64,
    pub x: Coord,
    pub y: Coord,
}

/// A `FileMeta`, with its name as characters.
pub ghost struct FileMetaView {
    pub name: Seq<char>,
    pub size: u64,
}

/// A `Reliable`, with its text as characters.
pub ghost enum ReliableView {
    Input(Event),
    Control(Control),
    Clipboard(Seq<char>),
}

impl View for FileMeta {
    type V = FileMetaView;

    open spec fn view(&self) -> FileMetaView {
        FileMetaView { name: self.name@, size: self.size }
    }
}

impl View for FilesHeader {
    type V = Seq<FileMetaView>;

    open spec fn view(&self) -> Seq<FileMetaView> {
        Seq::new(self.files@.len(), |i: int| self.files@[i]@)
    }
}

impl View for Reliable {
    type V = ReliableView;

    open spec fn view(&self) -> ReliableView {
        match *self {
            Reliable::Input(e) => ReliableView::Input(e),
            Reliable::Control(c) => ReliableView::Control(c),
            Reliable::Clipboard(t) => ReliableView::Clipboard(t@),
        }
    }
}

/// The index of a direction on the wire.
pub open spec fn direction_index(d: Direction) -> nat {
    match d {
        Direction::Press => 0,
        Direction::Release => 1,
    }
}

/// The index of a mouse button on the wire.
pub open spec fn button_index(b: MouseButton) -> nat {
    match b {
        MouseButton::Left => 0,
        MouseButton::Right => 1,
        MouseButton::Middle => 2,
        MouseButton::Back => 3,
        MouseButton::Forward => 4,
    }
}

/// A point: its two coordinates.
pub open spec fn point_bytes(x: Coord, y: Coord) -> Seq<u8> {
    wire::bits_bytes(x.bits) + wire::bits_bytes(y.bits)
}

/// The bytes of an event: the index of its variant, then its fields in order.
pub open spec fn event_bytes(e: Event) -> Seq<u8> {
    match e {
        Event::Key { usage, dir } => wire::varint(0) + (wire::varint(usage as nat) + wire::varint(
            direction_index(dir),
        )),
        Event::Button { button, dir } => wire::varint(1) + (wire::varint(button_index(button))
            + wire::varint(direction_index(dir))),
        Event::MotionAbs { x, y } => wire::varint(2) + point_bytes(x, y),
        Event::MotionRel { dx, dy } => wire::varint(3) + point_bytes(dx, dy),
        Event::Scroll { dx, dy } => wire::varint(4) + (wire::varint(wire::zigzag(dx as int))
            + wire::varint(wire::zigzag(dy as int))),
    }
}

/// The bytes of a control message.
pub open spec fn control_bytes(c: Control) -> Seq<u8> {
    match c {
        Control::Enter { x, y, mods } => wire::varint(0) + (point_bytes(x, y) + wire::varint(
            mods.0 as nat,
        )),
        Control::Leave => wire::varint(1),
    }
}

/// The bytes of a reliable message.
pub open spec fn reliable_bytes(m: ReliableView) -> Seq<u8> {
    match m {
        ReliableView::Input(e) => wire::varint(0) + event_bytes(e),
        ReliableView::Control(c) => wire::varint(1) + control_bytes(c),
        ReliableView::Clipboard(t) => wire::varint(2) + wire::string_bytes(t),
    }
}

/// The bytes of a motion datagram.
pub open spec fn motion_bytes(m: Motion) -> Seq<u8> {
    wire::varint(m.seq as nat) + point_bytes(m.x, m.y)
}

/// The bytes of one file's entry.
pub open spec fn meta_bytes(m: FileMetaView) -> Seq<u8> {
    wire::string_bytes(m.name) + wire::varint(m.size as nat)
}

/// The entries one after the other.
pub open spec fn metas_bytes(files: Seq<FileMetaView>) -> Seq<u8>
    decreases files.len(),
{
    if files.len() == 0 {
        Seq::empty()
    } else {
        meta_bytes(files[0]) + metas_bytes(files.skip(1))
    }
}

/// The bytes of a header: how many files, then their entries.
pub open spec fn header_bytes(files: Seq<FileMetaView>) -> Seq<u8> {
    wire::varint(files.len()) + metas_bytes(files)
}

/// Reads a direction.
pub open spec fn take_direction(s: Seq<u8>) -> wire::Taken<Direction> {
    match wire::take_varint(s, 32) {
        Ok((i, rest)) => if i == 0 {
            Ok((Direction::Press, rest))
        } else if i == 1 {
            Ok((Direction::Release, rest))
        } else {
            Err(DecodeError::UnknownVariant)
        },
        Err(e) => Err(e),
    }
}

/// Reads a mouse button.
pub open spec fn take_button(s: Seq<u8>) -> wire::Taken<MouseButton> {
    match wire::take_varint(s, 32) {
        Ok((i, rest)) => if i == 0 {
            Ok((MouseButton::Left, rest))
        } else if i == 1 {
            Ok((MouseButton::Right, rest))
        } else if i == 2 {
            Ok((MouseButton::Middle, rest))
        } else if i == 3 {
            Ok((MouseButton::Back, rest))
        } else if i == 4 {
            Ok((MouseButton::Forward, rest))
        } else {
            Err(DecodeError::UnknownVariant)
        },
        Err(e) => Err(e),
    }
}

/// Reads a point.
pub open spec fn take_point(s: Seq<u8>) -> wire::Taken<(Coord, Coord)> {
    match wire::take_bits_spec(s) {
        Ok((x, rest)) => match wire::take_bits_spec(rest) {
            Ok((y, rest)) => Ok(((Coord { bits: x }, Coord { bits: y }), rest)),
            Err(e) => Err(e),
        },
        Err(e) => Err(e),
    }
}

/// Reads the fields of a key event.
pub open spec fn take_key(s: Seq<u8>) -> wire::Taken<Event> {
    match wire::take_varint(s, 16) {
        Ok((usage, rest)) => match take_direction(rest) {
            Ok((dir, rest)) => Ok((Event::Key { usage: usage as u16, dir }, rest)),
            Err(e) => Err(e),
        },
        Err(e) => Err(e),
    }
}

/// Reads the fields of a button event.
pub open spec fn take_button_event(s: Seq<u8>) -> wire::Taken<Event> {
    match take_button(s) {
        Ok((button, rest)) => match take_direction(rest) {
            Ok((dir, rest)) => Ok((Event::Button { button, dir }, rest)),
            Err(e) => Err(e),
        },
        Err(e) => Err(e),
    }
}

/// Reads the fields of a scroll event.
pub open spec fn take_scroll(s: Seq<u8>) -> wire::Taken<Event> {
    match wire::take_signed(s) {
        Ok((dx, rest)) => match wire::take_signed(rest) {
            Ok((dy, rest)) => Ok((Event::Scroll { dx: dx as i32, dy: dy as i32 }, rest)),
            Err(e) => Err(e),
        },
        Err(e) => Err(e),
    }
}

/// Reads an event.
pub open spec fn take_event(s: Seq<u8>) -> wire::Taken<Event> {
    match wire::take_varint(s, 32) {
        Ok((i, rest)) => if i == 0 {
            take_key(rest)
        } else if i == 1 {
            take_button_event(rest)
        } else if i == 2 {
            match take_point(rest) {
                Ok(((x, y), rest)) => Ok((Event::MotionAbs { x, y }, rest)),
                Err(e) => Err(e),
            }
        } else if i == 3 {
            match take_point(rest) {
                Ok(((dx, dy), rest)) => Ok((Event::MotionRel { dx, dy }, rest)),
                Err(e) => Err(e),
            }
        } else if i == 4 {
            take_scroll(rest)
        } else {
            Err(DecodeError::UnknownVariant)
        },
        Err(e) => Err(e),
    }
}

/// Reads a control message.
pub open spec fn take_control(s: Seq<u8>) -> wire::Taken<Control> {
    match wire::take_varint(s, 32) {
        Ok((i, rest)) => if i == 0 {
            match take_point(rest) {
                Ok(((x, y), rest)) => match wire::take_varint(rest, 16) {
                    Ok((m, rest)) => Ok(
                        (Control::Enter { x, y, mods: Modifiers(m as u16) }, rest),
                    ),
                    Err(e) => Err(e),
                },
                Err(e) => Err(e),
            }
        } else if i == 1 {
            Ok((Control::Leave, rest))
        } else {
            Err(DecodeError::UnknownVariant)
        },
        Err(e) => Err(e),
    }
}

/// Reads a reliable message.
pub open spec fn take_reliable(s: Seq<u8>) -> wire::Taken<ReliableView> {
    match wire::take_varint(s, 32) {
        Ok((i, rest)) => if i == 0 {
            match take_event(rest) {
                Ok((e, rest)) => Ok((ReliableView::Input(e), rest)),
                Err(e) => Err(e),
            }
        } else if i == 1 {
            match take_control(rest) {
                Ok((c, rest)) => Ok((ReliableView::Control(c), rest)),
                Err(e) => Err(e),
            }
        } else if i == 2 {
            match wire::take_string_spec(rest) {
                Ok((t, rest)) => Ok((ReliableView::Clipboard(t), rest)),
                Err(e) => Err(e),
            }
        } else {
            Err(DecodeError::UnknownVariant)
        },
        Err(e) => Err(e),
    }
}

/// Reads a motion datagram.
pub open spec fn take_motion(s: Seq<u8>) -> wire::Taken<Motion> {
    match wire::take_varint(s, 64) {
        Ok((seq, rest)) => match take_point(rest) {
            Ok(((x, y), rest)) => Ok((Motion { seq: seq as u64, x, y }, rest)),
            Err(e) => Err(e),
        },
        Err(e) => Err(e),
    }
}

/// Reads one file's entry.
pub open spec fn take_meta(s: Seq<u8>) -> wire::Taken<FileMetaView> {
    match wire::take_string_spec(s) {
        Ok((name, rest)) => match wire::take_varint(rest, 64) {
            Ok((size, rest)) => Ok((FileMetaView { name, size: size as u64 }, rest)),
            Err(e) => Err(e),
        },
        Err(e) => Err(e),
    }
}

/// Reads `n` entries.
pub open spec fn take_metas(s: Seq<u8>, n: nat) -> wire::Taken<Seq<FileMetaView>>
    decreases n,
{
    if n == 0 {
        Ok((Seq::empty(), s))
    } else {
        match take_meta(s) {
            Ok((m, rest)) => after(seq![m], take_metas(rest, (n - 1) as nat)),
            Err(e) => Err(e),
        }
    }
}

/// The entries `done`, then what `more` has read.
pub open spec fn after(done: Seq<FileMetaView>, more: wire::Taken<Seq<FileMetaView>>) -> wire::Taken<
    Seq<FileMetaView>,
> {
    match more {
        Ok((ms, rest)) => Ok((done + ms, rest)),
        Err(e) => Err(e),
    }
}

/// Reads a header.
pub open spec fn take_header(s: Seq<u8>) -> wire::Taken<Seq<FileMetaView>> {
    match wire::take_varint(s, 64) {
        Ok((n, rest)) => take_metas(rest, n),
        Err(e) => Err(e),
    }
}

/// The value that was read, without the bytes behind it: a message may be
/// followed by anything.
pub open spec fn whole<T>(t: wire::Taken<T>) -> Result<T, DecodeError> {
    match t {
        Ok((v, _)) => Ok(v),
        Err(e) => Err(e),
    }
}

fn put_direction(d: Direction) -> (r: Vec<u8>)
    ensures
        r@ == wire::varint(direction_index(d)),
{
    match d {
        Direction::Press => wire::put_unsigned(0),
        Direction::Release => wire::put_unsigned(1),
    }
}

fn put_button(b: MouseButton) -> (r: Vec<u8>)
    ensures
        r@ == wire::varint(button_index(b)),
{
    match b {
        MouseButton::Left => wire::put_unsigned(0),
        MouseButton::Right => wire::put_unsigned(1),
        MouseButton::Middle => wire::put_unsigned(2),
        MouseButton::Back => wire::put_unsigned(3),
        MouseButton::Forward => wire::put_unsigned(4),
    }
}

fn put_point(x: Coord, y: Coord) -> (r: Vec<u8>)
    ensures
        r@ == point_bytes(x, y),
{
    let mut out = wire::put_le(x.bits, 8);
    wire::extend(&mut out, wire::put_le(y.bits, 8));
    out
}

/// The bytes of an event.
fn encode_event(e: &Event) -> (r: Vec<u8>)
    ensures
        r@ == event_bytes(*e),
{
    match *e {
        Event::Key { usage, dir } => {
            let mut out = wire::put_unsigned(0);
            wire::extend(&mut out, wire::put_unsigned(usage as u64));
            wire::extend(&mut out, put_direction(dir));
            assert(out@ =~= event_bytes(*e));
            out
        },
        Event::Button { button, dir } => {
            let mut out = wire::put_unsigned(1);
            wire::extend(&mut out, put_button(button));
            wire::extend(&mut out, put_direction(dir));
            assert(out@ =~= event_bytes(*e));
            out
        },
        Event::MotionAbs { x, y } => {
            let mut out = wire::put_unsigned(2);
            wire::extend(&mut out, put_point(x, y));
            out
        },
        Event::MotionRel { dx, dy } => {
            let mut out = wire::put_unsigned(3);
            wire::extend(&mut out, put_point(dx, dy));
            out
        },
        Event::Scroll { dx, dy } => {
            let mut out = wire::put_unsigned(4);
            wire::extend(&mut out, wire::put_signed(dx));
            wire::extend(&mut out, wire::put_signed(dy));
            assert(out@ =~= event_bytes(*e));
            out
        },
    }
}

/// The bytes of a control message.
fn encode_control(c: &Control) -> (r: Vec<u8>)
    ensures
        r@ == control_bytes(*c),
{
    match *c {
        Control::Enter { x, y, mods } => {
            let mut out = wire::put_unsigned(0);
            wire::extend(&mut out, put_point(x, y));
            wire::extend(&mut out, wire::put_unsigned(mods.0 as u64));
            assert(out@ =~= control_bytes(*c));
            out
        },
        Control::Leave => wire::put_unsigned(1),
    }
}

/// The bytes of a reliable message.
pub fn encode_reliable(msg: &Reliable) -> (r: Vec<u8>)
    ensures
        r@ == reliable_bytes(msg@),
{
    match msg {
        Reliable::Input(e) => {
            let mut out = wire::put_unsigned(0);
            wire::extend(&mut out, encode_event(e));
            out
        },
        Reliable::Control(c) => {
            let mut out = wire::put_unsigned(1);
            wire::extend(&mut out, encode_control(c));
            out
        },
        Reliable::Clipboard(t) => {
            let mut out = wire::put_unsigned(2);
            wire::extend(&mut out, wire::put_string(t.as_str()));
            out
        },
    }
}

/// The bytes of a motion datagram.
pub fn encode_motion(m: &Motion) -> (r: Vec<u8>)
    ensures
        r@ == motion_bytes(*m),
{
    let mut out = wire::put_unsigned(m.seq);
    wire::extend(&mut out, put_point(m.x, m.y));
    out
}

/// The bytes of a header.
pub fn encode_files_header(h: &FilesHeader) -> (r: Vec<u8>)
    ensures
        r@ == header_bytes(h@),
{
    let mut out = wire::put_unsigned(h.files.len() as u64);
    let mut i: usize = 0;
    assert(h@.skip(0) =~= h@);
    while i < h.files.len()
        invariant
            i <= h.files@.len(),
            out@ + metas_bytes(h@.skip(i as int)) =~= header_bytes(h@),
        decreases h.files@.len() - i,
    {
        let m = &h.files[i];
        assert(h@.skip(i as int)[0] == m@);
        assert(h@.skip(i as int).skip(1) =~= h@.skip(i + 1));
        wire::extend(&mut out, wire::put_string(m.name.as_str()));
        wire::extend(&mut out, wire::put_unsigned(m.size));
        i = i + 1;
    }
    assert(h@.skip(i as int) =~= Seq::empty());
    assert(out@ + metas_bytes(h@.skip(i as int)) =~= out@);
    out
}

fn get_direction(s: &[u8]) -> (r: Result<(Direction, &[u8]), DecodeError>)
    ensures
        match r {
            Ok((v, rest)) => take_direction(s@) == Ok::<(Direction, Seq<u8>), DecodeError>((v, rest@)),
            Err(e) => take_direction(s@) == Err::<(Direction, Seq<u8>), DecodeError>(e),
        },
{
    let (i, rest) = match wire::take_u32(s) {
        Ok(taken) => taken,
        Err(e) => return Err(e),
    };
    match i {
        0 => Ok((Direction::Press, rest)),
        1 => Ok((Direction::Release, rest)),
        _ => Err(DecodeError::UnknownVariant),
    }
}

fn get_button(s: &[u8]) -> (r: Result<(MouseButton, &[u8]), DecodeError>)
    ensures
        match r {
            Ok((v, rest)) => take_button(s@) == Ok::<(MouseButton, Seq<u8>), DecodeError>((v, rest@)),
            Err(e) => take_button(s@) == Err::<(MouseButton, Seq<u8>), DecodeError>(e),
        },
{
    let (i, rest) = match wire::take_u32(s) {
        Ok(taken) => taken,
        Err(e) => return Err(e),
    };
    match i {
        0 => Ok((MouseButton::Left, rest)),
        1 => Ok((MouseButton::Right, rest)),
        2 => Ok((MouseButton::Middle, rest)),
        3 => Ok((MouseButton::Back, rest)),
        4 => Ok((MouseButton::Forward, rest)),
        _ => Err(DecodeError::UnknownVariant),
    }
}

fn get_point(s: &[u8]) -> (r: Result<((Coord, Coord), &[u8]), DecodeError>)
    ensures
        match r {
            Ok((v, rest)) => take_point(s@) == Ok::<((Coord, Coord), Seq<u8>), DecodeError>((v, rest@)),
            Err(e) => take_point(s@) == Err::<((Coord, Coord), Seq<u8>), DecodeError>(e),
        },
{
    let (x, rest) = match wire::take_bits(s) {
        Ok(taken) => taken,
        Err(e) => return Err(e),
    };
    let (y, rest) = match wire::take_bits(rest) {
        Ok(taken) => taken,
        Err(e) => return Err(e),
    };
    Ok(((Coord { bits: x }, Coord { bits: y }), rest))
}

fn get_event(s: &[u8]) -> (r: Result<(Event, &[u8]), DecodeError>)
    ensures
        match r {
            Ok((v, rest)) => take_event(s@) == Ok::<(Event, Seq<u8>), DecodeError>((v, rest@)),
            Err(e) => take_event(s@) == Err::<(Event, Seq<u8>), DecodeError>(e),
        },
{
    let (i, rest) = match wire::take_u32(s) {
        Ok(taken) => taken,
        Err(e) => return Err(e),
    };
    match i {
        0 => {
            let (usage, rest) = match wire::take_u16(rest) {
                Ok(taken) => taken,
                Err(e) => return Err(e),
            };
            match get_direction(rest) {
                Ok((dir, rest)) => Ok((Event::Key { usage, dir }, rest)),
                Err(e) => Err(e),
            }
        },
        1 => {
            let (button, rest) = match get_button(rest) {
                Ok(taken) => taken,
                Err(e) => return Err(e),
            };
            match get_direction(rest) {
                Ok((dir, rest)) => Ok((Event::Button { button, dir }, rest)),
                Err(e) => Err(e),
            }
        },
        2 => match get_point(rest) {
            Ok(((x, y), rest)) => Ok((Event::MotionAbs { x, y }, rest)),
            Err(e) => Err(e),
        },
        3 => match get_point(rest) {
            Ok(((dx, dy), rest)) => Ok((Event::MotionRel { dx, dy }, rest)),
            Err(e) => Err(e),
        },
        4 => {
            let (dx, rest) = match wire::take_i32(rest) {
                Ok(taken) => taken,
                Err(e) => return Err(e),
            };
            match wire::take_i32(rest) {
                Ok((dy, rest)) => Ok((Event::Scroll { dx, dy }, rest)),
                Err(e) => Err(e),
            }
        },
        _ => Err(DecodeError::UnknownVariant),
    }
}

fn get_control(s: &[u8]) -> (r: Result<(Control, &[u8]), DecodeError>)
    ensures
        match r {
            Ok((v, rest)) => take_control(s@) == Ok::<(Control, Seq<u8>), DecodeError>((v, rest@)),
            Err(e) => take_control(s@) == Err::<(Control, Seq<u8>), DecodeError>(e),
        },
{
    let (i, rest) = match wire::take_u32(s) {
        Ok(taken) => taken,
        Err(e) => return Err(e),
    };
    match i {
        0 => {
            let ((x, y), rest) = match get_point(rest) {
                Ok(taken) => taken,
                Err(e) => return Err(e),
            };
            match wire::take_u16(rest) {
                Ok((m, rest)) => Ok((Control::Enter { x, y, mods: Modifiers(m) }, rest)),
                Err(e) => Err(e),
            }
        },
        1 => Ok((Control::Leave, rest)),
        _ => Err(DecodeError::UnknownVariant),
    }
}

/// The reliable message that `buf` begins with. What follows it is ignored.
pub fn decode_reliable(buf: &[u8]) -> (r: Result<Reliable, DecodeError>)
    ensures
        match r {
            Ok(m) => whole(take_reliable(buf@)) == Ok::<ReliableView, DecodeError>(m@),
            Err(e) => whole(take_reliable(buf@)) == Err::<ReliableView, DecodeError>(e),
        },
{
    let (i, rest) = match wire::take_u32(buf) {
        Ok(taken) => taken,
        Err(e) => return Err(e),
    };
    match i {
        0 => match get_event(rest) {
            Ok((e, _)) => Ok(Reliable::Input(e)),
            Err(e) => Err(e),
        },
        1 => match get_control(rest) {
            Ok((c, _)) => Ok(Reliable::Control(c)),
            Err(e) => Err(e),
        },
        2 => match wire::take_string(rest) {
            Ok((t, _)) => Ok(Reliable::Clipboard(t)),
            Err(e) => Err(e),
        },
        _ => Err(DecodeError::UnknownVariant),
    }
}

/// The motion that the datagram `buf` begins with. What follows it is ignored.
pub fn decode_motion(buf: &[u8]) -> (r: Result<Motion, DecodeError>)
    ensures
        r == whole(take_motion(buf@)),
{
    let (seq, rest) = match wire::take_u64(buf) {
        Ok(taken) => taken,
        Err(e) => return Err(e),
    };
    match get_point(rest) {
        Ok(((x, y), _)) => Ok(Motion { seq, x, y }),
        Err(e) => Err(e),
    }
}

/// The header that `buf` begins with. What follows it is ignored.
pub fn decode_files_header(buf: &[u8]) -> (r: Result<FilesHeader, DecodeError>)
    ensures
        match r {
            Ok(h) => whole(take_header(buf@)) == Ok::<Seq<FileMetaView>, DecodeError>(h@),
            Err(e) => whole(take_header(buf@)) == Err::<Seq<FileMetaView>, DecodeError>(e),
        },
{
    let (n, rest) = match wire::take_u64(buf) {
        Ok(taken) => taken,
        Err(e) => return Err(e),
    };
    let mut header = FilesHeader { files: Vec::new() };
    let mut s = rest;
    let mut i: u64 = 0;
    assert(after(header@, take_metas(s@, n as nat)) == take_metas(s@, n as nat)) by {
        match take_metas(s@, n as nat) {
            Ok((ms, _)) => assert(header@ + ms =~= ms),
            Err(_) => {},
        }
    }
    while i < n
        invariant
            i <= n,
            take_header(buf@) == after(header@, take_metas(s@, (n - i) as nat)),
        decreases n - i,
    {
        let ghost before = header@;
        let (name, rest) = match wire::take_string(s) {
            Ok(taken) => taken,
            Err(e) => return Err(e),
        };
        let (size, rest) = match wire::take_u64(rest) {
            Ok(taken) => taken,
            Err(e) => return Err(e),
        };
        let ghost m = FileMetaView { name: name@, size };
        header.files.push(FileMeta { name, size });
        proof {
            assert(header@ =~= before.push(m));
            match take_metas(rest@, (n - i - 1) as nat) {
                Ok((ms, _)) => assert(before + (seq![m] + ms) =~= header@ + ms),
                Err(_) => {},
            }
        }
        s = rest;
        i = i + 1;
    }
    assert(header@ + Seq::<FileMetaView>::empty() =~= header@);
    Ok(header)
}

proof fn direction_reads_back(d: Direction, rest: Seq<u8>)
    ensures
        take_direction(wire::varint(direction_index(d)) + rest) == Ok::<
            (Direction, Seq<u8>),
            DecodeError,
        >((d, rest)),
{
    lemma2_to64();
    wire::varint_reads_back(direction_index(d), 32, rest);
}

proof fn button_reads_back(b: MouseButton, rest: Seq<u8>)
    ensures
        take_button(wire::varint(button_index(b)) + rest) == Ok::<
            (MouseButton, Seq<u8>),
            DecodeError,
        >((b, rest)),
{
    lemma2_to64();
    wire::varint_reads_back(button_index(b), 32, rest);
}

proof fn point_reads_back(x: Coord, y: Coord, rest: Seq<u8>)
    ensures
        point_bytes(x, y).len() == 16,
        take_point(point_bytes(x, y) + rest) == Ok::<((Coord, Coord), Seq<u8>), DecodeError>(
            ((x, y), rest),
        ),
{
    let xs = wire::bits_bytes(x.bits);
    let ys = wire::bits_bytes(y.bits);
    assert(point_bytes(x, y) + rest =~= xs + (ys + rest));
    wire::bits_read_back(x.bits, ys + rest);
    wire::bits_read_back(y.bits, rest);
}

/// An event is read back, whatever follows it.
pub proof fn event_reads_back(e: Event, rest: Seq<u8>)
    ensures
        take_event(event_bytes(e) + rest) == Ok::<(Event, Seq<u8>), DecodeError>((e, rest)),
{
    lemma2_to64();
    match e {
        Event::Key { usage, dir } => {
            let u = wire::varint(usage as nat);
            let d = wire::varint(direction_index(dir));
            assert(event_bytes(e) + rest =~= wire::varint(0) + (u + (d + rest)));
            wire::varint_reads_back(0, 32, u + (d + rest));
            wire::varint_reads_back(usage as nat, 16, d + rest);
            direction_reads_back(dir, rest);
        },
        Event::Button { button, dir } => {
            let b = wire::varint(button_index(button));
            let d = wire::varint(direction_index(dir));
            assert(event_bytes(e) + rest =~= wire::varint(1) + (b + (d + rest)));
            wire::varint_reads_back(1, 32, b + (d + rest));
            button_reads_back(button, d + rest);
            direction_reads_back(dir, rest);
        },
        Event::MotionAbs { x, y } => {
            let p = point_bytes(x, y);
            assert(event_bytes(e) + rest =~= wire::varint(2) + (p + rest));
            wire::varint_reads_back(2, 32, p + rest);
            point_reads_back(x, y, rest);
        },
        Event::MotionRel { dx, dy } => {
            let p = point_bytes(dx, dy);
            assert(event_bytes(e) + rest =~= wire::varint(3) + (p + rest));
            wire::varint_reads_back(3, 32, p + rest);
            point_reads_back(dx, dy, rest);
        },
        Event::Scroll { dx, dy } => {
            let xs = wire::varint(wire::zigzag(dx as int));
            let ys = wire::varint(wire::zigzag(dy as int));
            assert(event_bytes(e) + rest =~= wire::varint(4) + (xs + (ys + rest)));
            wire::varint_reads_back(4, 32, xs + (ys + rest));
            wire::signed_reads_back(dx, ys + rest);
            wire::signed_reads_back(dy, rest);
        },
    }
}

/// A control message is read back, whatever follows it.
pub proof fn control_reads_back(c: Control, rest: Seq<u8>)
    ensures
        take_control(control_bytes(c) + rest) == Ok::<(Control, Seq<u8>), DecodeError>((c, rest)),
{
    lemma2_to64();
    match c {
        Control::Enter { x, y, mods } => {
            let p = point_bytes(x, y);
            let m = wire::varint(mods.0 as nat);
            assert(control_bytes(c) + rest =~= wire::varint(0) + (p + (m + rest)));
            wire::varint_reads_back(0, 32, p + (m + rest));
            point_reads_back(x, y, m + rest);
            wire::varint_reads_back(mods.0 as nat, 16, rest);
        },
        Control::Leave => {
            wire::varint_reads_back(1, 32, rest);
        },
    }
}

/// A message that can be held in memory: its text is no longer than a machine
/// word can count.
pub open spec fn representable(m: ReliableView) -> bool {
    m matches ReliableView::Clipboard(t) ==> encode_utf8(t).len() <= usize::MAX
}

/// Decoding undoes encoding: the receiver of a reliable message gets the message
/// that was sent, whatever bytes follow it.
pub proof fn reliable_reads_back(m: ReliableView, rest: Seq<u8>)
    requires
        representable(m),
    ensures
        take_reliable(reliable_bytes(m) + rest) == Ok::<(ReliableView, Seq<u8>), DecodeError>(
            (m, rest),
        ),
        whole(take_reliable(reliable_bytes(m))) == Ok::<ReliableView, DecodeError>(m),
{
    reliable_reads_back_before(m, rest);
    reliable_reads_back_before(m, Seq::empty());
    assert(reliable_bytes(m) + Seq::<u8>::empty() =~= reliable_bytes(m));
}

proof fn reliable_reads_back_before(m: ReliableView, rest: Seq<u8>)
    requires
        representable(m),
    ensures
        take_reliable(reliable_bytes(m) + rest) == Ok::<(ReliableView, Seq<u8>), DecodeError>(
            (m, rest),
        ),
{
    lemma2_to64();
    match m {
        ReliableView::Input(e) => {
            assert(reliable_bytes(m) + rest =~= wire::varint(0) + (event_bytes(e) + rest));
            wire::varint_reads_back(0, 32, event_bytes(e) + rest);
            event_reads_back(e, rest);
        },
        ReliableView::Control(c) => {
            assert(reliable_bytes(m) + rest =~= wire::varint(1) + (control_bytes(c) + rest));
            wire::varint_reads_back(1, 32, control_bytes(c) + rest);
            control_reads_back(c, rest);
        },
        ReliableView::Clipboard(t) => {
            assert(reliable_bytes(m) + rest =~= wire::varint(2) + (wire::string_bytes(t) + rest));
            wire::varint_reads_back(2, 32, wire::string_bytes(t) + rest);
            wire::string_reads_back(t, rest);
        },
    }
}

/// Decoding undoes encoding: the receiver of a motion datagram gets the motion
/// that was sent, whatever bytes follow it.
pub proof fn motion_reads_back(m: Motion, rest: Seq<u8>)
    ensures
        take_motion(motion_bytes(m) + rest) == Ok::<(Motion, Seq<u8>), DecodeError>((m, rest)),
        whole(take_motion(motion_bytes(m))) == Ok::<Motion, DecodeError>(m),
{
    vstd::arithmetic::power2::lemma2_to64_rest();
    let p = point_bytes(m.x, m.y);
    assert(motion_bytes(m) + rest =~= wire::varint(m.seq as nat) + (p + rest));
    wire::varint_reads_back(m.seq as nat, 64, p + rest);
    point_reads_back(m.x, m.y, rest);
    let none = Seq::<u8>::empty();
    assert(motion_bytes(m) =~= wire::varint(m.seq as nat) + (p + none));
    wire::varint_reads_back(m.seq as nat, 64, p + none);
    point_reads_back(m.x, m.y, none);
}

/// Every name is no longer than a machine word can count, and so is their list.
pub open spec fn header_representable(files: Seq<FileMetaView>) -> bool {
    &&& files.len() <= u64::MAX
    &&& forall|i: int|
        0 <= i < files.len() ==> encode_utf8((#[trigger] files[i]).name).len() <= usize::MAX
}

proof fn metas_read_back(files: Seq<FileMetaView>, rest: Seq<u8>)
    requires
        header_representable(files),
    ensures
        take_metas(metas_bytes(files) + rest, files.len()) == Ok::<
            (Seq<FileMetaView>, Seq<u8>),
            DecodeError,
        >((files, rest)),
    decreases files.len(),
{
    if files.len() == 0 {
        assert(metas_bytes(files) + rest =~= rest);
        assert(files =~= Seq::empty());
    } else {
        vstd::arithmetic::power2::lemma2_to64_rest();
        let m = files[0];
        let more = files.skip(1);
        let tail = metas_bytes(more) + rest;
        let size = wire::varint(m.size as nat);
        assert(metas_bytes(files) + rest =~= wire::string_bytes(m.name) + (size + tail));
        wire::string_reads_back(m.name, size + tail);
        wire::varint_reads_back(m.size as nat, 64, tail);
        assert forall|i: int| 0 <= i < more.len() implies encode_utf8(
            (#[trigger] more[i]).name,
        ).len() <= usize::MAX by {
            assert(more[i] == files[i + 1]);
        }
        metas_read_back(more, rest);
        assert(seq![m] + more =~= files);
    }
}

/// Decoding undoes encoding: the receiver of a file transfer gets the header that
/// was sent, whatever bytes follow it.
pub proof fn header_reads_back(files: Seq<FileMetaView>, rest: Seq<u8>)
    requires
        header_representable(files),
    ensures
        take_header(header_bytes(files) + rest) == Ok::<(Seq<FileMetaView>, Seq<u8>), DecodeError>(
            (files, rest),
        ),
        whole(take_header(header_bytes(files))) == Ok::<Seq<FileMetaView>, DecodeError>(files),
{
    vstd::arithmetic::power2::lemma2_to64_rest();
    let n = wire::varint(files.len());
    assert(header_bytes(files) + rest =~= n + (metas_bytes(files) + rest));
    wire::varint_reads_back(files.len(), 64, metas_bytes(files) + rest);
    metas_read_back(files, rest);
    let none = Seq::<u8>::empty();
    assert(header_bytes(files) =~= n + (metas_bytes(files) + none));
    wire::varint_reads_back(files.len(), 64, metas_bytes(files) + none);
    metas_read_back(files, none);
}

/// A message whose text is within the clipboard limit, and any other message,
/// fits the frame that a receiver takes.
pub proof fn message_fits_frame(m: ReliableView)
    requires
        m matches ReliableView::Clipboard(t) ==> encode_utf8(t).len() <= CLIPBOARD_MAX,
    ensures
        reliable_bytes(m).len() <= MAX_FRAME,
{
    lemma2_to64();
    match m {
        ReliableView::Input(e) => {
            match e {
                Event::Key { usage, dir } => {
                    wire::varint_length(usage as nat, 3);
                },
                Event::Button { button, dir } => {},
                Event::MotionAbs { x, y } => {
                    point_reads_back(x, y, Seq::empty());
                },
                Event::MotionRel { dx, dy } => {
                    point_reads_back(dx, dy, Seq::empty());
                },
                Event::Scroll { dx, dy } => {
                    lemma_pow2_strictly_increases(32, 35);
                    wire::varint_length(wire::zigzag(dx as int), 5);
                    wire::varint_length(wire::zigzag(dy as int), 5);
                },
            }
        },
        ReliableView::Control(c) => {
            match c {
                Control::Enter { x, y, mods } => {
                    point_reads_back(x, y, Seq::empty());
                    wire::varint_length(mods.0 as nat, 3);
                },
                Control::Leave => {},
            }
        },
        ReliableView::Clipboard(t) => {
            wire::varint_length(encode_utf8(t).len(), 3);
        },
    }
}

/// The bytes of every reliable message: what kind it is, and then its fields in order,
/// each kind numbered in the order in which it is declared.
pub proof fn reliable_layout(
    usage: u16,
    button: MouseButton,
    dir: Direction,
    x: Coord,
    y: Coord,
    dx: i32,
    dy: i32,
    mods: Modifiers,
    text: Seq<char>,
)
    ensures
        ({
            let way: u8 = if dir == Direction::Press {
                0
            } else {
                1
            };
            let which: u8 = match button {
                MouseButton::Left => 0,
                MouseButton::Right => 1,
                MouseButton::Middle => 2,
                MouseButton::Back => 3,
                MouseButton::Forward => 4,
            };
            let point = wire::le(x.bits as nat, 8) + wire::le(y.bits as nat, 8);
            let key = Event::Key { usage, dir };
            let click = Event::Button { button, dir };
            let there = Event::MotionAbs { x, y };
            let by = Event::MotionRel { dx: x, dy: y };
            let turn = Event::Scroll { dx, dy };
            let enter = Control::Enter { x, y, mods };
            &&& reliable_bytes(ReliableView::Input(key)) == seq![0u8, 0u8] + wire::varint(
                usage as nat,
            ) + seq![way]
            &&& reliable_bytes(ReliableView::Input(click)) == seq![0u8, 1u8, which, way]
            &&& reliable_bytes(ReliableView::Input(there)) == seq![0u8, 2u8] + point
            &&& reliable_bytes(ReliableView::Input(by)) == seq![0u8, 3u8] + point
            &&& reliable_bytes(ReliableView::Input(turn)) == seq![0u8, 4u8] + wire::varint(
                wire::zigzag(dx as int),
            ) + wire::varint(wire::zigzag(dy as int))
            &&& reliable_bytes(ReliableView::Control(enter)) == seq![1u8, 0u8] + point
                + wire::varint(mods.0 as nat)
            &&& reliable_bytes(ReliableView::Control(Control::Leave)) == seq![1u8, 1u8]
            &&& reliable_bytes(ReliableView::Clipboard(text)) == seq![2u8] + wire::varint(
                encode_utf8(text).len(),
            ) + encode_utf8(text)
        }),
{
    assert(wire::varint(0) =~= seq![0u8]);
    assert(wire::varint(1) =~= seq![1u8]);
    assert(wire::varint(2) =~= seq![2u8]);
    assert(wire::varint(3) =~= seq![3u8]);
    assert(wire::varint(4) =~= seq![4u8]);
}

/// The bytes of a datagram: its number, and then the two coordinates.
pub proof fn motion_layout(m: Motion)
    ensures
        motion_bytes(m) == wire::varint(m.seq as nat) + wire::le(m.x.bits as nat, 8) + wire::le(
            m.y.bits as nat,
            8,
        ),
{
}

/// The bytes of a header: the number of files, and then the name and the size of each.
pub proof fn header_layout(files: Seq<FileMetaView>, more: FileMetaView)
    ensures
        header_bytes(Seq::empty()) == seq![0u8],
        ({
            let n = wire::varint(files.len());
            let m = wire::varint(files.len() + 1);
            let entries = header_bytes(files).skip(n.len() as int);
            let longer = header_bytes(files.push(more));
            &&& header_bytes(files).take(n.len() as int) == n
            &&& longer == m + entries + wire::varint(encode_utf8(more.name).len()) + encode_utf8(
                more.name,
            ) + wire::varint(more.size as nat)
        }),
{
    assert(wire::varint(0) =~= seq![0u8]);
    assert(header_bytes(Seq::empty()) =~= seq![0u8]);
    let n = wire::varint(files.len());
    assert(header_bytes(files).take(n.len() as int) =~= n);
    assert(header_bytes(files).skip(n.len() as int) =~= metas_bytes(files));
    metas_of_push(files, more);
}

proof fn metas_of_push(files: Seq<FileMetaView>, more: FileMetaView)
    ensures
        metas_bytes(files.push(more)) == metas_bytes(files) + meta_bytes(more),
    decreases files.len(),
{
    let all = files.push(more);
    if files.len() > 0 {
        assert(all.skip(1) =~= files.skip(1).push(more));
        metas_of_push(files.skip(1), more);
        assert(metas_bytes(all) =~= metas_bytes(files) + meta_bytes(more));
    } else {
        reveal_with_fuel(metas_bytes, 2);
        assert(all.skip(1) =~= Seq::empty());
        assert(metas_bytes(all) =~= metas_bytes(files) + meta_bytes(more));
    }
}

/// A kind that is not declared is refused, whatever follows it: of a message, of an
/// event, of a control message, of a button and of a direction.
pub proof fn undeclared_kinds_are_refused(i: nat, rest: Seq<u8>)
    requires
        i < 0x1_0000_0000,
    ensures
        i >= 3 ==> take_reliable(wire::varint(i) + rest) == Err::<
            (ReliableView, Seq<u8>),
            DecodeError,
        >(DecodeError::UnknownVariant),
        i >= 5 ==> take_event(wire::varint(i) + rest) == Err::<(Event, Seq<u8>), DecodeError>(
            DecodeError::UnknownVariant,
        ),
        i >= 2 ==> take_control(wire::varint(i) + rest) == Err::<(Control, Seq<u8>), DecodeError>(
            DecodeError::UnknownVariant,
        ),
        i >= 5 ==> take_button(wire::varint(i) + rest) == Err::<
            (MouseButton, Seq<u8>),
            DecodeError,
        >(DecodeError::UnknownVariant),
        i >= 2 ==> take_direction(wire::varint(i) + rest) == Err::<
            (Direction, Seq<u8>),
            DecodeError,
        >(DecodeError::UnknownVariant),
{
    lemma2_to64();
    wire::varint_reads_back(i, 32, rest);
}

proof fn cut_direction(s: Seq<u8>, k: int)
    requires
        0 <= k <= s.len(),
    ensures
        wire::cut(s, k, take_direction(s), take_direction(s.take(k))),
{
    wire::cut_varint(s, 32, k);
}

proof fn cut_button(s: Seq<u8>, k: int)
    requires
        0 <= k <= s.len(),
    ensures
        wire::cut(s, k, take_button(s), take_button(s.take(k))),
{
    wire::cut_varint(s, 32, k);
}

proof fn cut_point(s: Seq<u8>, k: int)
    requires
        0 <= k <= s.len(),
    ensures
        wire::cut(s, k, take_point(s), take_point(s.take(k))),
{
    wire::cut_bits(s, k);
    if let Ok((_, rest)) = wire::take_bits_spec(s) {
        let left = k - (s.len() - rest.len());
        if left >= 0 {
            wire::cut_bits(rest, left);
        } else {
            wire::cut_bits(rest, 0);
        }
    }
}

proof fn cut_key(s: Seq<u8>, k: int)
    requires
        0 <= k <= s.len(),
    ensures
        wire::cut(s, k, take_key(s), take_key(s.take(k))),
{
    wire::cut_varint(s, 16, k);
    if let Ok((_, rest)) = wire::take_varint(s, 16) {
        let left = k - (s.len() - rest.len());
        if left >= 0 {
            cut_direction(rest, left);
        } else {
            cut_direction(rest, 0);
        }
    }
}

proof fn cut_button_event(s: Seq<u8>, k: int)
    requires
        0 <= k <= s.len(),
    ensures
        wire::cut(s, k, take_button_event(s), take_button_event(s.take(k))),
{
    cut_button(s, k);
    if let Ok((_, rest)) = take_button(s) {
        let left = k - (s.len() - rest.len());
        if left >= 0 {
            cut_direction(rest, left);
        } else {
            cut_direction(rest, 0);
        }
    }
}

proof fn cut_scroll(s: Seq<u8>, k: int)
    requires
        0 <= k <= s.len(),
    ensures
        wire::cut(s, k, take_scroll(s), take_scroll(s.take(k))),
{
    wire::cut_signed(s, k);
    if let Ok((_, rest)) = wire::take_signed(s) {
        let left = k - (s.len() - rest.len());
        if left >= 0 {
            wire::cut_signed(rest, left);
        } else {
            wire::cut_signed(rest, 0);
        }
    }
}

proof fn cut_event(s: Seq<u8>, k: int)
    requires
        0 <= k <= s.len(),
    ensures
        wire::cut(s, k, take_event(s), take_event(s.take(k))),
{
    wire::cut_varint(s, 32, k);
    if let Ok((_, rest)) = wire::take_varint(s, 32) {
        let left = k - (s.len() - rest.len());
        let at = if left >= 0 {
            left
        } else {
            0
        };
        cut_key(rest, at);
        cut_button_event(rest, at);
        cut_point(rest, at);
        cut_scroll(rest, at);
    }
}

proof fn cut_control(s: Seq<u8>, k: int)
    requires
        0 <= k <= s.len(),
    ensures
        wire::cut(s, k, take_control(s), take_control(s.take(k))),
{
    wire::cut_varint(s, 32, k);
    if let Ok((_, rest)) = wire::take_varint(s, 32) {
        let left = k - (s.len() - rest.len());
        let at = if left >= 0 {
            left
        } else {
            0
        };
        cut_point(rest, at);
        if let Ok((_, more)) = take_point(rest) {
            let left = at - (rest.len() - more.len());
            if left >= 0 {
                wire::cut_varint(more, 16, left);
            } else {
                wire::cut_varint(more, 16, 0);
            }
        }
    }
}

/// A reliable message that was cut off is refused for that, wherever it was cut, and
/// what was cut off behind it does not matter.
pub proof fn cut_message_is_refused(s: Seq<u8>, k: int)
    requires
        0 <= k <= s.len(),
    ensures
        wire::cut(s, k, take_reliable(s), take_reliable(s.take(k))),
{
    wire::cut_varint(s, 32, k);
    if let Ok((_, rest)) = wire::take_varint(s, 32) {
        let left = k - (s.len() - rest.len());
        let at = if left >= 0 {
            left
        } else {
            0
        };
        cut_event(rest, at);
        cut_control(rest, at);
        wire::cut_string(rest, at);
    }
}

/// So is a datagram.
pub proof fn cut_motion_is_refused(s: Seq<u8>, k: int)
    requires
        0 <= k <= s.len(),
    ensures
        wire::cut(s, k, take_motion(s), take_motion(s.take(k))),
{
    wire::cut_varint(s, 64, k);
    if let Ok((_, rest)) = wire::take_varint(s, 64) {
        let left = k - (s.len() - rest.len());
        if left >= 0 {
            cut_point(rest, left);
        } else {
            cut_point(rest, 0);
        }
    }
}

proof fn cut_meta(s: Seq<u8>, k: int)
    requires
        0 <= k <= s.len(),
    ensures
        wire::cut(s, k, take_meta(s), take_meta(s.take(k))),
{
    wire::cut_string(s, k);
    if let Ok((_, rest)) = wire::take_string_spec(s) {
        let left = k - (s.len() - rest.len());
        if left >= 0 {
            wire::cut_varint(rest, 64, left);
        } else {
            wire::cut_varint(rest, 64, 0);
        }
    }
}

proof fn cut_metas(s: Seq<u8>, n: nat, k: int)
    requires
        0 <= k <= s.len(),
    ensures
        wire::cut(s, k, take_metas(s, n), take_metas(s.take(k), n)),
    decreases n,
{
    if n > 0 {
        cut_meta(s, k);
        if let Ok((_, rest)) = take_meta(s) {
            let left = k - (s.len() - rest.len());
            if left >= 0 {
                cut_metas(rest, (n - 1) as nat, left);
            } else {
                cut_metas(rest, (n - 1) as nat, 0);
            }
        }
    }
}

/// So is a header.
pub proof fn cut_header_is_refused(s: Seq<u8>, k: int)
    requires
        0 <= k <= s.len(),
    ensures
        wire::cut(s, k, take_header(s), take_header(s.take(k))),
{
    wire::cut_varint(s, 64, k);
    if let Ok((n, rest)) = wire::take_varint(s, 64) {
        let left = k - (s.len() - rest.len());
        if left >= 0 {
            cut_metas(rest, n, left);
        } else {
            cut_metas(rest, n, 0);
        }
    }
}

/// A message of which the last byte, or more, is missing is refused.
pub proof fn incomplete_is_refused(m: ReliableView, motion: Motion, k: int)
    requires
        representable(m),
        0 <= k,
    ensures
        k < reliable_bytes(m).len() ==> whole(take_reliable(reliable_bytes(m).take(k))) == Err::<
            ReliableView,
            DecodeError,
        >(DecodeError::UnexpectedEnd),
        k < motion_bytes(motion).len() ==> whole(take_motion(motion_bytes(motion).take(k)))
            == Err::<Motion, DecodeError>(DecodeError::UnexpectedEnd),
{
    let none = Seq::<u8>::empty();
    if k < reliable_bytes(m).len() {
        reliable_reads_back(m, none);
        assert(reliable_bytes(m) + none =~= reliable_bytes(m));
        cut_message_is_refused(reliable_bytes(m), k);
    }
    if k < motion_bytes(motion).len() {
        motion_reads_back(motion, none);
        assert(motion_bytes(motion) + none =~= motion_bytes(motion));
        cut_motion_is_refused(motion_bytes(motion), k);
    }
}

/// The limits: a mebibyte of text, with a little for what goes around it, and 256
/// mebibytes of files.
pub proof fn limits()
    ensures
        CLIPBOARD_MAX == 1024 * 1024,
        MAX_FRAME == CLIPBOARD_MAX + 64,
        FILES_MAX_TOTAL == 256 * 1024 * 1024,
{
}

} // verus!

use quickvm::coord::Coord;
use quickvm::event::{Control, Direction, Event, Modifiers, MouseButton};
use quickvm::proto::{
    decode_files_header, decode_motion, decode_reliable, encode_files_header, encode_motion,
    encode_reliable, FileMeta, FilesHeader, Motion, Reliable, CLIPBOARD_MAX, FILES_MAX_TOTAL,
    MAX_FRAME, STREAM_TAG_FILES, STREAM_TAG_MSG,
};
use quickvm::wire::DecodeError;

fn number(v: f64) -> Coord {
    Coord { bits: v.to_bits() }
}

#[test]
fn clipboard_roundtrip() {
    let msg = Reliable::Clipboard("hello 中文 🦀\r\nline2".to_string());
    let buf = encode_reliable(&msg);
    assert_eq!(decode_reliable(&buf).unwrap(), msg);
}

#[test]
fn clipboard_max_fits_wire() {
    let msg = Reliable::Clipboard("x".repeat(CLIPBOARD_MAX));
    assert!(encode_reliable(&msg).len() <= CLIPBOARD_MAX + 64);
}

#[test]
fn input_roundtrip_unchanged() {
    let msg = Reliable::Control(Control::Leave);
    let buf = encode_reliable(&msg);
    assert_eq!(decode_reliable(&buf).unwrap(), msg);
}

#[test]
fn every_message_reads_back() {
    let events = [
        Event::Key { usage: 0xE7, dir: Direction::Release },
        Event::Button { button: MouseButton::Forward, dir: Direction::Press },
        Event::MotionAbs { x: number(0.125), y: number(f64::MAX) },
        Event::MotionRel { dx: number(-3.5), dy: number(f64::NEG_INFINITY) },
        Event::Scroll { dx: i32::MIN, dy: i32::MAX },
    ];
    for ev in events {
        let msg = Reliable::Input(ev);
        assert_eq!(decode_reliable(&encode_reliable(&msg)), Ok(msg));
    }
    let enter = Reliable::Control(Control::Enter {
        x: number(0.001),
        y: number(0.5),
        mods: Modifiers(Modifiers::CTRL | Modifiers::META),
    });
    assert_eq!(decode_reliable(&encode_reliable(&enter)), Ok(enter));
}

#[test]
fn every_pattern_reads_back() {
    for v in [f64::NAN, -f64::NAN, -0.0, f64::MIN_POSITIVE / 4.0] {
        let m = Motion { seq: 1, x: number(v), y: number(0.5) };
        let read = decode_motion(&encode_motion(&m)).unwrap();
        assert_eq!(read.x.bits, v.to_bits());
    }
}

#[test]
fn bytes_are_those_of_postcard() {
    let key = Reliable::Input(Event::Key { usage: 300, dir: Direction::Release });
    assert_eq!(
        encode_reliable(&key),
        postcard::to_allocvec(&(0u32, 0u32, 300u16, 1u32)).unwrap()
    );
    let button = Reliable::Input(Event::Button { button: MouseButton::Back, dir: Direction::Press });
    assert_eq!(
        encode_reliable(&button),
        postcard::to_allocvec(&(0u32, 1u32, 3u32, 0u32)).unwrap()
    );
    let moved = Reliable::Input(Event::MotionAbs { x: number(0.25), y: number(-0.75) });
    assert_eq!(
        encode_reliable(&moved),
        postcard::to_allocvec(&(0u32, 2u32, 0.25f64, -0.75f64)).unwrap()
    );
    let displaced = Reliable::Input(Event::MotionRel { dx: number(1e300), dy: number(0.0) });
    assert_eq!(
        encode_reliable(&displaced),
        postcard::to_allocvec(&(0u32, 3u32, 1e300f64, 0.0f64)).unwrap()
    );
    let scroll = Reliable::Input(Event::Scroll { dx: -120, dy: 70000 });
    assert_eq!(
        encode_reliable(&scroll),
        postcard::to_allocvec(&(0u32, 4u32, -120i32, 70000i32)).unwrap()
    );
    let enter = Reliable::Control(Control::Enter {
        x: number(0.001),
        y: number(0.5),
        mods: Modifiers(9),
    });
    assert_eq!(
        encode_reliable(&enter),
        postcard::to_allocvec(&(1u32, 0u32, 0.001f64, 0.5f64, 9u16)).unwrap()
    );
    let text = Reliable::Clipboard("中文 🦀".to_string());
    assert_eq!(encode_reliable(&text), postcard::to_allocvec(&(2u32, "中文 🦀")).unwrap());
    let motion = Motion { seq: u64::MAX, x: number(0.5), y: number(1.0) };
    assert_eq!(
        encode_motion(&motion),
        postcard::to_allocvec(&(u64::MAX, 0.5f64, 1.0f64)).unwrap()
    );
    let header = FilesHeader {
        files: vec![
            FileMeta { name: "a.txt".to_string(), size: 3 },
            FileMeta { name: "報告".to_string(), size: 1 << 40 },
        ],
    };
    assert_eq!(
        encode_files_header(&header),
        postcard::to_allocvec(&vec![("a.txt", 3u64), ("報告", 1u64 << 40)]).unwrap()
    );
}

#[test]
fn exact_bytes() {
    let key = Reliable::Input(Event::Key { usage: 4, dir: Direction::Press });
    assert_eq!(encode_reliable(&key), vec![0, 0, 4, 0]);
    assert_eq!(encode_reliable(&Reliable::Control(Control::Leave)), vec![1, 1]);
    assert_eq!(encode_reliable(&Reliable::Clipboard("ab".to_string())), vec![2, 2, 97, 98]);
    let motion = Motion { seq: 300, x: number(1.0), y: number(0.0) };
    let mut expected = vec![0xAC, 0x02, 0, 0, 0, 0, 0, 0, 0xF0, 0x3F];
    expected.extend_from_slice(&[0; 8]);
    assert_eq!(encode_motion(&motion), expected);
}

#[test]
fn what_follows_a_message_is_ignored() {
    let mut buf = encode_reliable(&Reliable::Control(Control::Leave));
    buf.push(7);
    assert_eq!(decode_reliable(&buf), Ok(Reliable::Control(Control::Leave)));
}

#[test]
fn bytes_that_are_no_message() {
    assert_eq!(decode_reliable(&[]), Err(DecodeError::UnexpectedEnd));
    assert_eq!(decode_reliable(&[3]), Err(DecodeError::UnknownVariant));
    assert_eq!(decode_reliable(&[0, 9]), Err(DecodeError::UnknownVariant));
    assert_eq!(decode_reliable(&[2, 3, 97]), Err(DecodeError::UnexpectedEnd));
    assert_eq!(decode_reliable(&[2, 1, 0xFF]), Err(DecodeError::BadUtf8));
    assert_eq!(decode_reliable(&[0xFF; 8]), Err(DecodeError::BadVarint));
    assert_eq!(decode_motion(&[1, 0, 0]), Err(DecodeError::UnexpectedEnd));
    assert_eq!(decode_motion(&[0xFF; 11]), Err(DecodeError::BadVarint));
    assert_eq!(decode_files_header(&[1, 1]), Err(DecodeError::UnexpectedEnd));
    assert_eq!(decode_files_header(&[1, 1, 0xC0, 0]), Err(DecodeError::BadUtf8));
}

#[test]
fn headers_read_back() {
    let header = FilesHeader {
        files: vec![
            FileMeta { name: String::new(), size: 0 },
            FileMeta { name: "報告 🎉.txt".to_string(), size: u64::MAX },
        ],
    };
    assert_eq!(decode_files_header(&encode_files_header(&header)), Ok(header));
    let none = FilesHeader { files: vec![] };
    assert_eq!(encode_files_header(&none), vec![0]);
    assert_eq!(decode_files_header(&[0]), Ok(none));
}

#[test]
fn motions_read_back() {
    for seq in [0, 1, 127, 128, u64::MAX] {
        let m = Motion { seq, x: number(0.3), y: number(0.7) };
        assert_eq!(decode_motion(&encode_motion(&m)), Ok(m));
    }
}

#[test]
fn limits() {
    assert_eq!(CLIPBOARD_MAX, 1024 * 1024);
    assert_eq!(MAX_FRAME, CLIPBOARD_MAX + 64);
    assert_eq!(STREAM_TAG_MSG, 0x00);
    assert_eq!(STREAM_TAG_FILES, 0x01);
    assert_eq!(FILES_MAX_TOTAL, 256 * 1024 * 1024);
}

use quickvm::clipboard::{admit_text, fingerprint, Offer, Synced};
use quickvm::clipboard_files;
use quickvm::clipboard_files::{
    drop_list, fingerprint_text, keep_files, read_file_list, write_file_list, FileStamp, FileState,
    Modified, Unsupported,
};
use quickvm::proto::CLIPBOARD_MAX;
use std::hash::{DefaultHasher, Hash, Hasher};

fn absent(path: &str) -> FileStamp {
    FileStamp { path: path.as_bytes().to_vec(), state: None }
}

#[test]
fn fingerprint_dedups() {
    assert_eq!(fingerprint("hello"), fingerprint("hello"));
    assert_ne!(fingerprint("hello"), fingerprint("hello "));
    assert_eq!(fingerprint("中文 emoji 🦀"), fingerprint("中文 emoji 🦀"));
}

#[test]
fn fingerprint_domains_disjoint() {
    assert_ne!(fingerprint_text("a"), clipboard_files::fingerprint(&vec![absent("a")]));
}

#[test]
fn fingerprint_files_stable() {
    let p = vec![absent("/nonexistent/x"), absent("/nonexistent/y")];
    assert_eq!(clipboard_files::fingerprint(&p), clipboard_files::fingerprint(&p));
    assert_ne!(clipboard_files::fingerprint(&p), clipboard_files::fingerprint(&p[..1].to_vec()));
}

#[test]
fn fingerprints_are_those_of_the_standard_hasher() {
    for text in ["", "hello", "中文 emoji 🦀"] {
        let mut h = DefaultHasher::new();
        text.hash(&mut h);
        assert_eq!(fingerprint(text), h.finish());
        let mut h = DefaultHasher::new();
        1u8.hash(&mut h);
        text.hash(&mut h);
        assert_eq!(fingerprint_text(text), h.finish());
    }
}

#[test]
fn fingerprint_follows_size_and_time() {
    let at = |len: u64, secs: u64, nanos: u32| {
        vec![FileStamp {
            path: b"/tmp/a".to_vec(),
            state: Some(FileState { len, modified: Some(Modified { secs, nanos }) }),
        }]
    };
    let print = clipboard_files::fingerprint(&at(10, 20, 30));
    assert_eq!(print, clipboard_files::fingerprint(&at(10, 20, 30)));
    assert_ne!(print, clipboard_files::fingerprint(&at(11, 20, 30)));
    assert_ne!(print, clipboard_files::fingerprint(&at(10, 21, 30)));
    assert_ne!(print, clipboard_files::fingerprint(&at(10, 20, 31)));
    assert_ne!(print, clipboard_files::fingerprint(&vec![absent("/tmp/a")]));
}

#[test]
fn text_is_admitted_within_the_limit() {
    assert_eq!(admit_text(String::new()), None);
    assert_eq!(admit_text("x".to_string()), Some("x".to_string()));
    let most = "x".repeat(CLIPBOARD_MAX);
    assert_eq!(admit_text(most.clone()), Some(most));
    assert_eq!(admit_text("x".repeat(CLIPBOARD_MAX + 1)), None);
    // The limit is one of bytes.
    assert_eq!(admit_text("中".repeat(CLIPBOARD_MAX / 3 + 1)), None);
}

#[test]
fn unchanged_clipboard_is_offered_once() {
    let mut synced = Synced::new();
    let none = vec![];
    let text = "copied".to_string();
    assert_eq!(synced.offer(&none, Some(&text)), Offer::Text);
    assert_eq!(synced.offer(&none, Some(&text)), Offer::Nothing);
    assert_eq!(synced.offer(&none, Some(&"other".to_string())), Offer::Text);
    assert_eq!(synced.offer(&none, Some(&text)), Offer::Text);
    assert_eq!(synced.offer(&none, None), Offer::Nothing);
    assert_eq!(synced.offer(&none, Some(&text)), Offer::Nothing);
}

#[test]
fn files_are_offered_before_text() {
    let mut synced = Synced::new();
    let files = vec![absent("/tmp/a")];
    let text = "a".to_string();
    assert_eq!(synced.offer(&files, Some(&text)), Offer::Files);
    assert_eq!(synced.offer(&files, Some(&text)), Offer::Nothing);
    assert_eq!(synced.offer(&vec![], Some(&text)), Offer::Text);
    assert_eq!(synced.offer(&files, None), Offer::Files);
}

#[test]
fn what_came_from_the_peer_is_not_echoed() {
    let mut synced = Synced::new();
    synced.received_text("theirs");
    assert_eq!(synced.offer(&vec![], Some(&"theirs".to_string())), Offer::Nothing);
    let files = vec![absent("/tmp/theirs")];
    synced.received_files(&files);
    assert_eq!(synced.offer(&files, Some(&"theirs".to_string())), Offer::Nothing);
    assert_eq!(synced.offer(&vec![], Some(&"theirs".to_string())), Offer::Text);
}

#[test]
fn only_regular_files_are_kept() {
    let paths = vec!["a", "dir", "b", "gone"];
    assert_eq!(keep_files(paths, &vec![true, false, true, false]), Some(vec!["a", "b"]));
    assert_eq!(keep_files(vec!["dir"], &vec![false]), None);
    assert_eq!(keep_files(Vec::<u8>::new(), &vec![]), None);
}

#[test]
fn a_platform_without_a_file_clipboard() {
    assert_eq!(read_file_list(), None);
    assert_eq!(write_file_list(&vec!["a".to_string()]), Err(Unsupported));
}

#[test]
fn drop_list_bytes() {
    let paths: Vec<Vec<u16>> = vec![vec![0x0041, 0x4E2D], vec![0x0062]];
    let mut expected = vec![20, 0, 0, 0];
    expected.extend_from_slice(&[0; 12]);
    expected.extend_from_slice(&[1, 0, 0, 0]);
    expected.extend_from_slice(&[0x41, 0, 0x2D, 0x4E, 0, 0, 0x62, 0, 0, 0, 0, 0]);
    assert_eq!(drop_list(&paths), expected);
    assert_eq!(drop_list(&vec![]).len(), 22);
}

#[test]
fn drop_list_names_the_paths() {
    let paths: Vec<Vec<u16>> =
        ["C:\\a.txt", "D:\\報告 🎉"].iter().map(|p| p.encode_utf16().collect()).collect();
    let list = drop_list(&paths);
    let units: Vec<u16> =
        list[20..].chunks(2).map(|b| u16::from_le_bytes([b[0], b[1]])).collect();
    let mut read: Vec<Vec<u16>> = units.split(|u| *u == 0).map(|p| p.to_vec()).collect();
    read.truncate(read.iter().position(|p| p.is_empty()).unwrap());
    assert_eq!(read, paths);
}

use quickvm::proto::{FileMeta, FilesHeader, FILES_MAX_TOTAL, MAX_FRAME};
use quickvm::transfer::{
    begin, describe, header_length, read_header, EndedEarly, ReceiveError, SendError, Step,
    Transfer, FILE_CHUNK,
};
use quickvm::wire::DecodeError;

fn files(sizes: &[u64]) -> FilesHeader {
    let files = sizes
        .iter()
        .enumerate()
        .map(|(i, size)| FileMeta { name: format!("f{i}"), size: *size })
        .collect();
    FilesHeader { files }
}

#[test]
fn only_named_regular_files_are_described() {
    assert_eq!(
        describe(true, Some("a".to_string()), 5),
        Ok(FileMeta { name: "a".to_string(), size: 5 })
    );
    assert_eq!(describe(false, Some("a".to_string()), 5), Err(SendError::NotAFile));
    assert_eq!(describe(false, None, 5), Err(SendError::NotAFile));
    assert_eq!(describe(true, None, 5), Err(SendError::BadName));
}

#[test]
fn transfer_is_announced() {
    let header = FilesHeader { files: vec![FileMeta { name: "ab".to_string(), size: 300 }] };
    let sent = begin(&header).unwrap();
    assert_eq!(sent, vec![1, 6, 0, 0, 0, 1, 2, 97, 98, 0xAC, 2]);
    let length = header_length(&[sent[1], sent[2], sent[3], sent[4]]).unwrap();
    assert_eq!(length, 6);
    assert_eq!(read_header(&sent[5..]), Ok(header));
}

#[test]
fn transfer_is_limited() {
    assert!(begin(&files(&[FILES_MAX_TOTAL])).is_ok());
    assert_eq!(begin(&files(&[FILES_MAX_TOTAL, 1])), Err(SendError::TooLarge));
    assert_eq!(begin(&files(&[u64::MAX, u64::MAX])), Err(SendError::TooLarge));
    let half = FILES_MAX_TOTAL / 2;
    let header = files(&[half, half]);
    let sent = begin(&header).unwrap();
    assert_eq!(read_header(&sent[5..]), Ok(header));
    let over = quickvm::proto::encode_files_header(&files(&[half, half, 1]));
    assert_eq!(read_header(&over), Err(ReceiveError::TooLarge));
    let wraps = quickvm::proto::encode_files_header(&files(&[u64::MAX, 1]));
    assert_eq!(read_header(&wraps), Err(ReceiveError::TooLarge));
}

#[test]
fn header_is_limited() {
    assert_eq!(header_length(&(MAX_FRAME as u32).to_le_bytes()), Ok(MAX_FRAME));
    assert_eq!(
        header_length(&(MAX_FRAME as u32 + 1).to_le_bytes()),
        Err(ReceiveError::LongHeader)
    );
    assert_eq!(header_length(&[0xFF; 4]), Err(ReceiveError::LongHeader));
    assert_eq!(
        read_header(&[1, 9, 97]),
        Err(ReceiveError::BadHeader(DecodeError::UnexpectedEnd))
    );
}

#[test]
fn files_are_copied_in_chunks() {
    let chunk = FILE_CHUNK as u64;
    let mut t = Transfer::new(&files(&[chunk + 10, 0, 3]));
    assert_eq!(t.next(), Step::Open(0));
    t.opened();
    assert_eq!(t.next(), Step::Copy(FILE_CHUNK));
    assert_eq!(t.copied(FILE_CHUNK), Ok(()));
    assert_eq!(t.next(), Step::Copy(10));
    assert_eq!(t.copied(4), Ok(()));
    assert_eq!(t.next(), Step::Copy(6));
    assert_eq!(t.copied(6), Ok(()));
    assert_eq!(t.next(), Step::Close(0));
    t.closed();
    assert_eq!(t.next(), Step::Open(1));
    t.opened();
    assert_eq!(t.next(), Step::Close(1));
    t.closed();
    assert_eq!(t.next(), Step::Open(2));
    t.opened();
    assert_eq!(t.next(), Step::Copy(3));
    assert_eq!(t.copied(3), Ok(()));
    assert_eq!(t.next(), Step::Close(2));
    t.closed();
    assert_eq!(t.next(), Step::Done);
}

#[test]
fn file_that_ends_early() {
    let mut t = Transfer::new(&files(&[5]));
    t.opened();
    assert_eq!(t.copied(2), Ok(()));
    assert_eq!(t.copied(0), Err(EndedEarly));
    assert_eq!(t.next(), Step::Copy(3));
}

#[test]
fn exactly_the_announced_bytes_are_copied() {
    let sizes = [100_000u64, 1, 0, 70_000];
    let mut t = Transfer::new(&files(&sizes));
    let mut copied = [0u64; 4];
    let mut current = 0;
    loop {
        match t.next() {
            Step::Open(i) => {
                current = i;
                t.opened();
            }
            Step::Copy(want) => {
                // As a slow stream would: less than what is wanted at a time.
                let n = want.min(7777);
                copied[current] += n as u64;
                t.copied(n).unwrap();
            }
            Step::Close(i) => {
                assert_eq!(copied[i], sizes[i]);
                t.closed();
            }
            Step::Done => break,
        }
    }
    assert_eq!(copied, sizes);
}

#[test]
fn empty_batch_is_done() {
    assert_eq!(Transfer::new(&files(&[])).next(), Step::Done);
}

//! The directory-entry parser and the stream over it, on synthetic
//! kernel-style buffers.

use rawfs::dirent::{parse_dirents, DirEntry, ReadDir};
use rawfs::gateway::EIO;
use rawfs::meta::{FileType, DT_DIR, DT_REG};

fn record(ino: u64, dtype: u8, name: &[u8]) -> Vec<u8> {
    record_padded(ino, dtype, name, 0)
}

fn record_padded(ino: u64, dtype: u8, name: &[u8], pad: usize) -> Vec<u8> {
    let reclen: usize = 19 + name.len() + 1 + pad;
    let mut out: Vec<u8> = Vec::new();
    out.extend_from_slice(&ino.to_le_bytes());
    out.extend_from_slice(&0u64.to_le_bytes());
    out.extend_from_slice(&(reclen as u16).to_le_bytes());
    out.push(dtype);
    out.extend_from_slice(name);
    out.push(0);
    let mut i: usize = 0;
    while i < pad {
        out.push(0);
        i += 1;
    }
    out
}

fn names(entries: &[DirEntry]) -> Vec<Vec<u8>> {
    entries.iter().map(|e| e.name.clone()).collect()
}

#[test]
fn parses_records_and_skips_dot_entries() {
    let mut buf: Vec<u8> = Vec::new();
    buf.extend_from_slice(&record(1, DT_DIR, b"."));
    buf.extend_from_slice(&record(2, DT_DIR, b".."));
    buf.extend_from_slice(&record(3, DT_REG, b"hello"));
    buf.extend_from_slice(&record_padded(4, DT_DIR, b"world", 3));
    let entries = parse_dirents(&buf, b"/tmp").unwrap();
    assert_eq!(entries.len(), 2);
    assert_eq!(entries[0].ino, 3);
    assert_eq!(entries[0].file_type, FileType::RegularFile);
    assert_eq!(entries[0].name, b"hello");
    assert_eq!(entries[0].path, b"/tmp/hello");
    assert_eq!(entries[1].ino, 4);
    assert_eq!(entries[1].file_type, FileType::Directory);
    assert_eq!(entries[1].path, b"/tmp/world");
}

#[test]
fn join_respects_trailing_separator() {
    let buf = record(9, DT_REG, b"a");
    let entries = parse_dirents(&buf, b"/tmp/").unwrap();
    assert_eq!(entries[0].path, b"/tmp/a");
    let entries = parse_dirents(&buf, b"").unwrap();
    assert_eq!(entries[0].path, b"a");
}

#[test]
fn entry_accessors() {
    let buf = record(5, DT_REG, b"file");
    let entries = parse_dirents(&buf, b"/x").unwrap();
    let e = &entries[0];
    assert_eq!(e.ino(), 5);
    assert_eq!(e.path(), b"/x/file");
    assert_eq!(e.file_name(), b"file");
    assert!(e.file_type().is_file());
    match e.metadata() {
        rawfs::ops::Action::Statx { path, flags, mask } => {
            assert_eq!(path, b"/x/file\0");
            assert_eq!(flags, 0);
            assert_eq!(mask, rawfs::ops::STATX_ALL);
        },
        other => panic!("wrong action: {:?}", other),
    }
}

#[test]
fn malformed_buffers_are_rejected() {
    // A truncated header.
    assert_eq!(parse_dirents(&[0u8; 10], b"/"), Err(EIO));
    // A record length of zero.
    let mut buf = record(1, DT_REG, b"ok");
    buf[16] = 0;
    buf[17] = 0;
    assert_eq!(parse_dirents(&buf, b"/"), Err(EIO));
    // A record length past the end of the buffer.
    let mut buf = record(1, DT_REG, b"ok");
    buf[16] = 200;
    assert_eq!(parse_dirents(&buf, b"/"), Err(EIO));
    // A name without its NUL terminator.
    let mut buf = record(1, DT_REG, b"ok");
    let last: usize = buf.len() - 1;
    buf[last] = b'x';
    assert_eq!(parse_dirents(&buf, b"/"), Err(EIO));
}

#[test]
fn stream_hands_out_each_entry_exactly_once() {
    // Two kernel fills, as with a scratch buffer too small for one: the
    // stream must hand out every entry of both fills once, in order,
    // then signal the end.
    let mut fill1: Vec<u8> = Vec::new();
    fill1.extend_from_slice(&record(1, DT_DIR, b"."));
    fill1.extend_from_slice(&record(2, DT_DIR, b".."));
    fill1.extend_from_slice(&record(3, DT_REG, b"a"));
    let mut fill2: Vec<u8> = Vec::new();
    fill2.extend_from_slice(&record(4, DT_REG, b"b"));
    fill2.extend_from_slice(&record(5, DT_DIR, b"c"));

    let mut rd = ReadDir::new(b"/d");
    assert!(rd.needs_fill());
    rd.fill(&fill1).unwrap();
    let first = rd.next_entry().unwrap();
    assert_eq!(first.name, b"a");
    assert!(rd.next_entry().is_none());
    assert!(rd.needs_fill());
    rd.fill(&fill2).unwrap();
    let second = rd.next_entry().unwrap();
    let third = rd.next_entry().unwrap();
    assert_eq!(second.name, b"b");
    assert_eq!(third.name, b"c");
    assert!(rd.next_entry().is_none());
    // The empty fill is the end-of-stream signal, not an error.
    rd.fill(&[]).unwrap();
    assert!(rd.is_exhausted());
    assert!(!rd.needs_fill());
    assert!(rd.next_entry().is_none());
}

#[test]
fn one_fill_equals_two_for_the_same_records() {
    let mut fill1: Vec<u8> = Vec::new();
    fill1.extend_from_slice(&record(1, DT_REG, b"x"));
    fill1.extend_from_slice(&record(2, DT_REG, b"y"));
    let fill2 = record(3, DT_REG, b"z");
    let mut whole = fill1.clone();
    whole.extend_from_slice(&fill2);

    let split_names = {
        let mut rd = ReadDir::new(b"/d");
        rd.fill(&fill1).unwrap();
        rd.fill(&fill2).unwrap();
        let mut out: Vec<Vec<u8>> = Vec::new();
        while let Some(e) = rd.next_entry() {
            out.push(e.name);
        }
        out
    };
    let whole_names = names(&parse_dirents(&whole, b"/d").unwrap());
    assert_eq!(split_names, whole_names);
    assert_eq!(split_names, vec![b"x".to_vec(), b"y".to_vec(), b"z".to_vec()]);
}

#[test]
fn stream_root_is_kept() {
    let rd = ReadDir::new(b"/some/dir");
    assert_eq!(rd.root(), b"/some/dir");
}

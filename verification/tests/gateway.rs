//! Tests for the raw return-word decoding and the request builders.

use rawfs::gateway::{decode_fd, decode_len, decode_raw, decode_unit, EINVAL, ENOENT};
use rawfs::ops::{
    chown, creat_request, create_dir, ftruncate_request, hard_link, lchown, lstat_request,
    metadata, read_dir, read_link, remove_dir, remove_file, rename, seek_request,
    set_permissions, stat_request, symlink, symlink_metadata, try_exists, Action, Whence,
    AT_SYMLINK_NOFOLLOW, PATH_MAX, STATX_ALL,
};
use rawfs::meta::Permissions;

fn err_word(errno: usize) -> usize {
    // The kernel returns -errno in one machine word.
    usize::MAX - errno + 1
}

#[test]
fn decode_boundary() {
    // -4095 is the last word inside the error band, -4096 the first outside.
    assert_eq!(decode_raw(err_word(4095)), Err(4095));
    assert_eq!(decode_raw(err_word(4096)), Ok(usize::MAX - 4095));
    assert_eq!(decode_raw(err_word(1)), Err(1));
    assert_eq!(decode_raw(0), Ok(0));
    assert_eq!(decode_raw(17), Ok(17));
    // A huge success value that looks negative as a signed word.
    assert_eq!(decode_raw(usize::MAX / 2 + 12345), Ok(usize::MAX / 2 + 12345));
}

#[test]
fn decode_typed() {
    assert_eq!(decode_unit(0), Ok(()));
    assert_eq!(decode_unit(err_word(2)), Err(2));
    assert_eq!(decode_fd(7), Ok(7));
    assert_eq!(decode_fd(err_word(24)), Err(24));
    assert_eq!(decode_len(4096), Ok(4096));
    assert_eq!(decode_len(err_word(5)), Err(5));
}

#[test]
fn unlink_request_appends_nul() {
    match remove_file(b"/tmp/x") {
        Action::Unlink { path } => assert_eq!(path, b"/tmp/x\0"),
        other => panic!("wrong action: {:?}", other),
    }
}

#[test]
fn rmdir_and_mkdir_requests() {
    match remove_dir(b"/tmp/d") {
        Action::Rmdir { path } => assert_eq!(path, b"/tmp/d\0"),
        other => panic!("wrong action: {:?}", other),
    }
    match create_dir(b"/tmp/d") {
        Action::Mkdir { path, mode } => {
            assert_eq!(path, b"/tmp/d\0");
            assert_eq!(mode, 0o777);
        },
        other => panic!("wrong action: {:?}", other),
    }
}

#[test]
fn two_path_requests() {
    match rename(b"old", b"new") {
        Action::Rename { old_path, new_path } => {
            assert_eq!(old_path, b"old\0");
            assert_eq!(new_path, b"new\0");
        },
        other => panic!("wrong action: {:?}", other),
    }
    match hard_link(b"a", b"b") {
        Action::Link { old_path, new_path } => {
            assert_eq!(old_path, b"a\0");
            assert_eq!(new_path, b"b\0");
        },
        other => panic!("wrong action: {:?}", other),
    }
    match symlink(b"target", b"link") {
        Action::Symlink { target, link_path } => {
            assert_eq!(target, b"target\0");
            assert_eq!(link_path, b"link\0");
        },
        other => panic!("wrong action: {:?}", other),
    }
}

#[test]
fn status_requests() {
    match metadata(b"/etc") {
        Action::Statx { path, flags, mask } => {
            assert_eq!(path, b"/etc\0");
            assert_eq!(flags, 0);
            assert_eq!(mask, STATX_ALL);
        },
        other => panic!("wrong action: {:?}", other),
    }
    match symlink_metadata(b"/etc") {
        Action::Statx { path, flags, mask } => {
            assert_eq!(path, b"/etc\0");
            assert_eq!(flags, AT_SYMLINK_NOFOLLOW);
            assert_eq!(mask, STATX_ALL);
        },
        other => panic!("wrong action: {:?}", other),
    }
}

#[test]
fn read_dir_and_read_link_requests() {
    match read_dir(b"/tmp") {
        Action::Open { path, flags, mode } => {
            assert_eq!(path, b"/tmp\0");
            assert_eq!(flags, rawfs::flags::O_RDONLY | rawfs::flags::O_DIRECTORY);
            assert_eq!(mode, 0);
        },
        other => panic!("wrong action: {:?}", other),
    }
    match read_link(b"/tmp/l") {
        Action::Readlink { path, buf_size } => {
            assert_eq!(path, b"/tmp/l\0");
            assert_eq!(buf_size, PATH_MAX);
        },
        other => panic!("wrong action: {:?}", other),
    }
}

#[test]
fn creat_request_flags() {
    match creat_request(b"f", 0o644) {
        Action::Open { path, flags, mode } => {
            assert_eq!(path, b"f\0");
            assert_eq!(
                flags,
                rawfs::flags::O_RDONLY | rawfs::flags::O_CREAT | rawfs::flags::O_TRUNC
            );
            assert_eq!(mode, 0o644);
        },
        other => panic!("wrong action: {:?}", other),
    }
}

#[test]
fn chown_requests_use_keep_sentinel() {
    match chown(b"f", None, Some(5)) {
        Action::Chown { path, owner, group } => {
            assert_eq!(path, b"f\0");
            assert_eq!(owner, u32::MAX);
            assert_eq!(group, 5);
        },
        other => panic!("wrong action: {:?}", other),
    }
    match lchown(b"f", Some(3), None) {
        Action::Lchown { path, owner, group } => {
            assert_eq!(path, b"f\0");
            assert_eq!(owner, 3);
            assert_eq!(group, u32::MAX);
        },
        other => panic!("wrong action: {:?}", other),
    }
}

#[test]
fn chmod_request_carries_bits() {
    match set_permissions(b"f", &Permissions { bits: 0o640 }) {
        Action::Chmod { path, mode } => {
            assert_eq!(path, b"f\0");
            assert_eq!(mode, 0o640);
        },
        other => panic!("wrong action: {:?}", other),
    }
}

#[test]
fn seek_request_codes() {
    match seek_request(3, -10, Whence::End) {
        Action::Seek { fd, offset, whence } => {
            assert_eq!(fd, 3);
            assert_eq!(offset, -10);
            assert_eq!(whence, 2);
        },
        other => panic!("wrong action: {:?}", other),
    }
    match seek_request(3, 0, Whence::Begin) {
        Action::Seek { whence, .. } => assert_eq!(whence, 0),
        other => panic!("wrong action: {:?}", other),
    }
    match seek_request(3, 4, Whence::Current) {
        Action::Seek { whence, .. } => assert_eq!(whence, 1),
        other => panic!("wrong action: {:?}", other),
    }
}

#[test]
fn ftruncate_request_rejects_oversized_length() {
    match ftruncate_request(4, 100) {
        Ok(Action::Ftruncate { fd, length }) => {
            assert_eq!(fd, 4);
            assert_eq!(length, 100);
        },
        other => panic!("wrong action: {:?}", other),
    }
    assert!(matches!(ftruncate_request(4, u64::MAX), Err(e) if e == EINVAL));
}

#[test]
fn try_exists_decodes_not_found_as_false() {
    assert_eq!(try_exists(0), Ok(true));
    assert_eq!(try_exists(usize::MAX - ENOENT as usize + 1), Ok(false));
    assert_eq!(try_exists(usize::MAX - 13 + 1), Err(13));
}

#[test]
fn fstatx_request_names_the_descriptor_itself() {
    match rawfs::ops::fstatx_request(5) {
        Action::Fstatx { fd, path, flags, mask } => {
            assert_eq!(fd, 5);
            assert_eq!(path, b"\0");
            assert_eq!(flags, rawfs::ops::AT_EMPTY_PATH);
            assert_eq!(mask, STATX_ALL);
        },
        other => panic!("wrong action: {:?}", other),
    }
}

#[test]
fn plain_stat_requests() {
    match stat_request(b"/etc") {
        Action::Stat { path } => assert_eq!(path, b"/etc\0"),
        other => panic!("wrong action: {:?}", other),
    }
    match lstat_request(b"/etc") {
        Action::Lstat { path } => assert_eq!(path, b"/etc\0"),
        other => panic!("wrong action: {:?}", other),
    }
}

//! The open-flag validity matrix, row by row, and a cross-check of the
//! flag constants against the C library's values.

use rawfs::flags::{
    OpenOptions, O_ACCMODE, O_APPEND, O_CLOEXEC, O_CREAT, O_DIRECTORY, O_EXCL, O_RDONLY, O_RDWR,
    O_TRUNC, O_WRONLY,
};
use rawfs::gateway::EINVAL;

#[test]
fn access_mode_rows() {
    let base = OpenOptions::new();
    assert_eq!(base.read(true).get_access_mode(), Ok(O_RDONLY));
    assert_eq!(base.write(true).get_access_mode(), Ok(O_WRONLY));
    assert_eq!(base.read(true).write(true).get_access_mode(), Ok(O_RDWR));
    assert_eq!(base.append(true).get_access_mode(), Ok(O_WRONLY | O_APPEND));
    assert_eq!(base.write(true).append(true).get_access_mode(), Ok(O_WRONLY | O_APPEND));
    assert_eq!(base.read(true).append(true).get_access_mode(), Ok(O_RDWR | O_APPEND));
    assert_eq!(
        base.read(true).write(true).append(true).get_access_mode(),
        Ok(O_RDWR | O_APPEND)
    );
    assert_eq!(base.get_access_mode(), Err(EINVAL));
}

#[test]
fn creation_mode_rows() {
    let base = OpenOptions::new();
    // Creation or truncation without write access is invalid.
    assert_eq!(base.read(true).truncate(true).get_creation_mode(), Err(EINVAL));
    assert_eq!(base.read(true).create(true).get_creation_mode(), Err(EINVAL));
    assert_eq!(base.read(true).create_new(true).get_creation_mode(), Err(EINVAL));
    assert_eq!(base.read(true).get_creation_mode(), Ok(0));
    // With write access the three flags combine.
    let w = base.write(true);
    assert_eq!(w.get_creation_mode(), Ok(0));
    assert_eq!(w.create(true).get_creation_mode(), Ok(O_CREAT));
    assert_eq!(w.truncate(true).get_creation_mode(), Ok(O_TRUNC));
    assert_eq!(w.create(true).truncate(true).get_creation_mode(), Ok(O_CREAT | O_TRUNC));
    assert_eq!(w.create_new(true).get_creation_mode(), Ok(O_CREAT | O_EXCL));
    assert_eq!(
        w.create(true).truncate(true).create_new(true).get_creation_mode(),
        Ok(O_CREAT | O_EXCL)
    );
    // Truncating an append-mode file is invalid, unless exclusive
    // creation overrides it.
    let a = base.append(true);
    assert_eq!(a.truncate(true).get_creation_mode(), Err(EINVAL));
    assert_eq!(a.truncate(true).create_new(true).get_creation_mode(), Ok(O_CREAT | O_EXCL));
    assert_eq!(a.create(true).get_creation_mode(), Ok(O_CREAT));
}

#[test]
fn resolve_combines_all_parts() {
    let o = OpenOptions::new().write(true).create(true).truncate(true);
    assert_eq!(o.resolve(), Ok(O_CLOEXEC | O_WRONLY | O_CREAT | O_TRUNC));
    let o = OpenOptions::new().read(true);
    assert_eq!(o.resolve(), Ok(O_CLOEXEC | O_RDONLY));
    assert_eq!(OpenOptions::new().resolve(), Err(EINVAL));
    assert_eq!(OpenOptions::new().append(true).truncate(true).resolve(), Err(EINVAL));
}

#[test]
fn custom_flags_cannot_override_access_mode() {
    // The caller's extra bits keep everything but the access-mode bits.
    let o = OpenOptions::new().read(true).custom_flags(O_RDWR | O_DIRECTORY);
    assert_eq!(o.resolve(), Ok(O_CLOEXEC | O_RDONLY | O_DIRECTORY));
}

#[test]
fn new_defaults() {
    let o = OpenOptions::new();
    assert!(!o.read && !o.write && !o.append && !o.truncate && !o.create && !o.create_new);
    assert_eq!(o.custom_flags, 0);
    assert_eq!(o.mode, 0o666);
    assert_eq!(o.mode(0o600).mode, 0o600);
}

#[test]
fn flag_constants_match_libc() {
    assert_eq!(O_RDONLY, libc::O_RDONLY);
    assert_eq!(O_WRONLY, libc::O_WRONLY);
    assert_eq!(O_RDWR, libc::O_RDWR);
    assert_eq!(O_ACCMODE, libc::O_ACCMODE);
    assert_eq!(O_CREAT, libc::O_CREAT);
    assert_eq!(O_EXCL, libc::O_EXCL);
    assert_eq!(O_TRUNC, libc::O_TRUNC);
    assert_eq!(O_APPEND, libc::O_APPEND);
    assert_eq!(O_DIRECTORY, libc::O_DIRECTORY);
    assert_eq!(O_CLOEXEC, libc::O_CLOEXEC);
    assert_eq!(rawfs::gateway::ENOENT, libc::ENOENT);
    assert_eq!(rawfs::gateway::EINVAL, libc::EINVAL);
    assert_eq!(rawfs::gateway::EIO, libc::EIO);
    assert_eq!(rawfs::ops::AT_FDCWD, libc::AT_FDCWD);
    assert_eq!(rawfs::ops::AT_SYMLINK_NOFOLLOW, libc::AT_SYMLINK_NOFOLLOW);
    assert_eq!(rawfs::ops::AT_EMPTY_PATH, libc::AT_EMPTY_PATH);
    assert_eq!(rawfs::ops::STATX_ALL, libc::STATX_ALL);
    assert_eq!(rawfs::ops::PATH_MAX, libc::PATH_MAX as usize);
}

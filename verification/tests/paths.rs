//! The path-canonicalization engine: identities driven with scripted
//! answers, and whole resolutions against the real filesystem.

use nix::errno::Errno;
use rawfs::realpath::{canonicalize, Query, Reply, Resolver, Status};

/// Answers the resolver's questions from the real filesystem until the
/// resolution ends, anchoring relative paths at the process's working
/// directory.
fn drive(path: &[u8]) -> Result<Vec<u8>, i32> {
    let cwd = nix::unistd::getcwd().unwrap();
    let cwd_bytes = cwd.to_str().unwrap().as_bytes().to_vec();
    drive_from(path, &cwd_bytes)
}

/// Answers the resolver's questions from the real filesystem until the
/// resolution ends, anchoring relative paths at the given base.
fn drive_from(path: &[u8], base: &[u8]) -> Result<Vec<u8>, i32> {
    let mut r: Resolver = canonicalize(path, base);
    loop {
        match r.status() {
            Status::Finished(p) => return Ok(p),
            Status::Failed(e) => return Err(e),
            Status::Ask(Query::CheckExists(p)) => {
                let s = std::str::from_utf8(&p).unwrap();
                let reply = match nix::sys::stat::stat(s) {
                    Ok(_) => Ok(true),
                    Err(Errno::ENOENT) => Ok(false),
                    Err(e) => Err(e as i32),
                };
                r.on_reply(Reply::Exists(reply));
            },
            Status::Ask(Query::CheckLink(p)) => {
                let s = std::str::from_utf8(&p).unwrap();
                let target = match nix::sys::stat::lstat(s) {
                    Ok(st) if st.st_mode & libc::S_IFMT == libc::S_IFLNK => {
                        match nix::fcntl::readlink(s) {
                            Ok(t) => Some(t.into_string().unwrap().into_bytes()),
                            Err(_) => None,
                        }
                    },
                    _ => None,
                };
                r.on_reply(Reply::Target(target));
            },
        }
    }
}

#[test]
fn test1() {
    let res1 = drive(b"/..");
    assert_eq!(res1.unwrap(), b"/");
}

#[test]
fn test2() {
    let res2 = drive(b"/../test");
    assert_eq!(res2.unwrap(), b"/test");
}

#[test]
fn test3() {
    nix::unistd::mkdir("/tmp/test3", nix::sys::stat::Mode::from_bits_truncate(0o755)).unwrap();
    let res3 = drive_from(b"test3/..", b"/tmp");
    assert_eq!(res3.unwrap(), b"/tmp");
    nix::unistd::unlinkat(
        nix::fcntl::AT_FDCWD,
        "/tmp/test3",
        nix::unistd::UnlinkatFlags::RemoveDir,
    )
    .unwrap();
}

#[test]
fn test4() {
    let mode = nix::sys::stat::Mode::from_bits_truncate(0o755);
    nix::unistd::mkdir("/tmp/test4", mode).unwrap();
    nix::unistd::mkdir("/tmp/test4/path", mode).unwrap();
    let res4 = drive_from(b"test4/path/..", b"/tmp");
    assert_eq!(res4.unwrap(), b"/tmp/test4");
    nix::unistd::unlinkat(
        nix::fcntl::AT_FDCWD,
        "/tmp/test4/path",
        nix::unistd::UnlinkatFlags::RemoveDir,
    )
    .unwrap();
    nix::unistd::unlinkat(
        nix::fcntl::AT_FDCWD,
        "/tmp/test4",
        nix::unistd::UnlinkatFlags::RemoveDir,
    )
    .unwrap();
}

#[test]
fn test5() {
    let mode = nix::sys::stat::Mode::from_bits_truncate(0o755);
    nix::unistd::mkdir("/tmp/test5", mode).unwrap();
    nix::unistd::mkdir("/tmp/path", mode).unwrap();
    let res5 = drive_from(b"test5/../path", b"/tmp");
    assert_eq!(res5.unwrap(), b"/tmp/path");
    nix::unistd::unlinkat(
        nix::fcntl::AT_FDCWD,
        "/tmp/test5",
        nix::unistd::UnlinkatFlags::RemoveDir,
    )
    .unwrap();
    nix::unistd::unlinkat(
        nix::fcntl::AT_FDCWD,
        "/tmp/path",
        nix::unistd::UnlinkatFlags::RemoveDir,
    )
    .unwrap();
}

#[test]
fn realpath_test_symlink() {
    let fd = nix::fcntl::open(
        "/tmp/source",
        nix::fcntl::OFlag::O_CREAT | nix::fcntl::OFlag::O_WRONLY,
        nix::sys::stat::Mode::from_bits_truncate(0o644),
    )
    .unwrap();
    drop(fd);
    nix::unistd::symlinkat("source", nix::fcntl::AT_FDCWD, "/tmp/link").unwrap();

    let parsed = drive_from(b"link", b"/tmp").unwrap();
    assert_eq!(parsed, b"/tmp/source");

    nix::unistd::unlink("/tmp/source").unwrap();
    nix::unistd::unlink("/tmp/link").unwrap();
}

#[test]
fn scripted_dot_and_missing_entries() {
    // "." vanishes, and a missing prefix fails with the not-found error.
    let mut r = canonicalize(b"./a", b"/base");
    match r.status() {
        Status::Ask(Query::CheckExists(p)) => assert_eq!(p, b"/base"),
        other => panic!("unexpected status: {:?}", other),
    }
    r.on_reply(Reply::Exists(Ok(true)));
    // The "." was consumed without a link check; the next question is
    // the existence of the base again, before "a" is consumed.
    match r.status() {
        Status::Ask(Query::CheckExists(p)) => assert_eq!(p, b"/base"),
        other => panic!("unexpected status: {:?}", other),
    }
    r.on_reply(Reply::Exists(Ok(true)));
    match r.status() {
        Status::Ask(Query::CheckLink(p)) => assert_eq!(p, b"/base/a"),
        other => panic!("unexpected status: {:?}", other),
    }
    r.on_reply(Reply::Target(None));
    match r.status() {
        Status::Finished(p) => assert_eq!(p, b"/base/a"),
        other => panic!("unexpected status: {:?}", other),
    }

    let mut r = canonicalize(b"/missing/x", b"/");
    r.on_reply(Reply::Exists(Ok(true)));
    r.on_reply(Reply::Target(None));
    // "/missing" does not exist.
    r.on_reply(Reply::Exists(Ok(false)));
    match r.status() {
        Status::Failed(e) => assert_eq!(e, libc::ENOENT),
        other => panic!("unexpected status: {:?}", other),
    }
}

#[test]
fn scripted_relative_symlink_splices_at_parent() {
    // A relative target is anchored at the link's parent directory and
    // re-resolved from the root, ahead of the rest of the path.
    let mut r = canonicalize(b"/d/link/rest", b"/");
    r.on_reply(Reply::Exists(Ok(true)));  // "/" exists
    r.on_reply(Reply::Target(None));  // "/d" is no link
    r.on_reply(Reply::Exists(Ok(true)));  // "/d" exists
    match r.status() {
        Status::Ask(Query::CheckLink(p)) => assert_eq!(p, b"/d/link"),
        other => panic!("unexpected status: {:?}", other),
    }
    r.on_reply(Reply::Target(Some(b"target".to_vec())));
    // The walk starts over from the root, through "/d/target", with
    // "rest" still ahead.
    match r.status() {
        Status::Ask(Query::CheckExists(p)) => assert_eq!(p, b"/"),
        other => panic!("unexpected status: {:?}", other),
    }
    r.on_reply(Reply::Exists(Ok(true)));
    r.on_reply(Reply::Target(None));  // "/d"
    r.on_reply(Reply::Exists(Ok(true)));
    match r.status() {
        Status::Ask(Query::CheckLink(p)) => assert_eq!(p, b"/d/target"),
        other => panic!("unexpected status: {:?}", other),
    }
    r.on_reply(Reply::Target(None));
    r.on_reply(Reply::Exists(Ok(true)));
    r.on_reply(Reply::Target(None));  // "rest" appended, no link
    match r.status() {
        Status::Finished(p) => assert_eq!(p, b"/d/target/rest"),
        other => panic!("unexpected status: {:?}", other),
    }
}

#[test]
fn scripted_absolute_symlink_restarts_at_root() {
    let mut r = canonicalize(b"/a", b"/");
    r.on_reply(Reply::Exists(Ok(true)));
    match r.status() {
        Status::Ask(Query::CheckLink(p)) => assert_eq!(p, b"/a"),
        other => panic!("unexpected status: {:?}", other),
    }
    r.on_reply(Reply::Target(Some(b"/etc/alt".to_vec())));
    r.on_reply(Reply::Exists(Ok(true)));  // "/"
    r.on_reply(Reply::Target(None));  // "/etc"
    r.on_reply(Reply::Exists(Ok(true)));
    r.on_reply(Reply::Target(None));  // "/etc/alt"
    match r.status() {
        Status::Finished(p) => assert_eq!(p, b"/etc/alt"),
        other => panic!("unexpected status: {:?}", other),
    }
}

#[test]
fn split_and_render() {
    let comps = rawfs::realpath::split_components(b"//a///b/./..");
    let got: Vec<Vec<u8>> = comps;
    assert_eq!(
        got,
        vec![b"a".to_vec(), b"b".to_vec(), b".".to_vec(), b"..".to_vec()]
    );
    let empty: Vec<Vec<u8>> = Vec::new();
    assert_eq!(rawfs::realpath::render_path(&empty), b"/");
    let two = vec![b"a".to_vec(), b"b".to_vec()];
    assert_eq!(rawfs::realpath::render_path(&two), b"/a/b");
}

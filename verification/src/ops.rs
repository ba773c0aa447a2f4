//! The typed façade over the syscall gateway: each operation is marshalled
//! into a request value holding exactly the arguments the kernel call
//! takes, with paths copied into NUL-terminated form.  An unverified shell
//! issues the requests and hands the raw return words back to the decoders
//! of [`crate::gateway`].

use vstd::prelude::*;
use crate::bytes::{has_nul, to_c_bytes, with_nul};
use crate::flags::{O_CREAT, O_DIRECTORY, O_RDONLY, O_TRUNC};
use crate::gateway::{decode_outcome, decode_raw, EINVAL, ENOENT};
use crate::meta::Permissions;
use crate::times::{Timespec, TimestampSpec};

verus! {

/// The directory-descriptor sentinel naming the current working directory.
pub const AT_FDCWD: i32 = -100;

/// Flag for the extended status query: do not follow a final symlink.
pub const AT_SYMLINK_NOFOLLOW: i32 = 0x100;

/// Flag for the extended status query: query the descriptor itself.
pub const AT_EMPTY_PATH: i32 = 0x1000;

/// Mask asking the extended status query for every basic field.
pub const STATX_ALL: u32 = 0xfff;

/// The longest path the kernel accepts, including the terminating NUL.
pub const PATH_MAX: usize = 4096;

/// The default permission mode for a new directory.
pub const DIR_MODE: u32 = 0o777;

/// Where a seek offset is measured from.
#[derive(Copy, Clone, Debug, PartialEq, Eq, Structural)]
pub enum Whence {
    /// From the beginning of the file.
    Begin,
    /// From the current offset.
    Current,
    /// From the end of the file.
    End,
}

/// The kernel's code for a seek origin.
pub open spec fn spec_whence_code(w: Whence) -> i32 {
    match w {
        Whence::Begin => 0,
        Whence::Current => 1,
        Whence::End => 2,
    }
}

impl Whence {
    /// The kernel's code for this seek origin.
    pub fn code(&self) -> (c: i32)
        ensures
            c == spec_whence_code(*self),
    {
        match self {
            Whence::Begin => 0,
            Whence::Current => 1,
            Whence::End => 2,
        }
    }
}

/// One kernel operation with its marshalled arguments.  Paths are byte
/// strings ending in the NUL byte the kernel requires.
#[derive(Clone, Debug)]
pub enum Action {
    /// Open the file at a path with a flags word and a creation mode.
    Open {
        /// The NUL-terminated path.
        path: Vec<u8>,
        /// The open-flags word.
        flags: i32,
        /// Permission bits for a created file.
        mode: u32,
    },
    /// Make a new hard link to a file.
    Link {
        /// The NUL-terminated path of the existing file.
        old_path: Vec<u8>,
        /// The NUL-terminated path of the new link.
        new_path: Vec<u8>,
    },
    /// Delete a name from the filesystem.
    Unlink {
        /// The NUL-terminated path.
        path: Vec<u8>,
    },
    /// Make a symbolic link holding a target string.
    Symlink {
        /// The NUL-terminated target the link will hold.
        target: Vec<u8>,
        /// The NUL-terminated path of the new link.
        link_path: Vec<u8>,
    },
    /// Create a directory.
    Mkdir {
        /// The NUL-terminated path.
        path: Vec<u8>,
        /// Permission bits for the new directory.
        mode: u32,
    },
    /// Remove an empty directory.
    Rmdir {
        /// The NUL-terminated path.
        path: Vec<u8>,
    },
    /// Change the name or location of a file.
    Rename {
        /// The NUL-terminated old path.
        old_path: Vec<u8>,
        /// The NUL-terminated new path.
        new_path: Vec<u8>,
    },
    /// Query the plain status of the file a path names.
    Stat {
        /// The NUL-terminated path.
        path: Vec<u8>,
    },
    /// Query the plain status of a path without following a final symlink.
    Lstat {
        /// The NUL-terminated path.
        path: Vec<u8>,
    },
    /// Query the plain status of an open descriptor.
    Fstat {
        /// The descriptor.
        fd: i32,
    },
    /// Query the extended status of the file a path names.
    Statx {
        /// The NUL-terminated path.
        path: Vec<u8>,
        /// Lookup flags.
        flags: i32,
        /// Which fields to fill.
        mask: u32,
    },
    /// Query the extended status of an open descriptor.
    Fstatx {
        /// The descriptor.
        fd: i32,
        /// The empty path naming the descriptor itself.
        path: Vec<u8>,
        /// Lookup flags.
        flags: i32,
        /// Which fields to fill.
        mask: u32,
    },
    /// Fill a buffer with directory entries from an open directory.
    Getdents {
        /// The directory descriptor.
        fd: i32,
        /// How many bytes the scratch buffer holds.
        count: usize,
    },
    /// Change the root directory of the process.
    Chroot {
        /// The NUL-terminated path.
        path: Vec<u8>,
    },
    /// Reposition the offset of an open descriptor.
    Seek {
        /// The descriptor.
        fd: i32,
        /// The signed offset.
        offset: i64,
        /// The kernel's code for the origin.
        whence: i32,
    },
    /// Read the target a symbolic link holds.
    Readlink {
        /// The NUL-terminated path of the link.
        path: Vec<u8>,
        /// How many bytes the target buffer holds.
        buf_size: usize,
    },
    /// Flush the data and metadata of a descriptor to disk.
    Fsync {
        /// The descriptor.
        fd: i32,
    },
    /// Flush the data of a descriptor to disk.
    Fdatasync {
        /// The descriptor.
        fd: i32,
    },
    /// Truncate or extend an open file to a length.
    Ftruncate {
        /// The descriptor.
        fd: i32,
        /// The new length.
        length: i64,
    },
    /// Change the permission bits of the file a path names.
    Chmod {
        /// The NUL-terminated path.
        path: Vec<u8>,
        /// The new permission bits.
        mode: u32,
    },
    /// Change the permission bits of an open descriptor.
    Fchmod {
        /// The descriptor.
        fd: i32,
        /// The new permission bits.
        mode: u32,
    },
    /// Change the timestamps of an open descriptor.
    Utimens {
        /// The descriptor.
        fd: i32,
        /// The access time instruction.
        atime: Timespec,
        /// The modification time instruction.
        mtime: Timespec,
    },
    /// Change the owner of the file a path names.
    Chown {
        /// The NUL-terminated path.
        path: Vec<u8>,
        /// The new owner, or the unchanged sentinel.
        owner: u32,
        /// The new group, or the unchanged sentinel.
        group: u32,
    },
    /// Change the owner of an open descriptor.
    Fchown {
        /// The descriptor.
        fd: i32,
        /// The new owner, or the unchanged sentinel.
        owner: u32,
        /// The new group, or the unchanged sentinel.
        group: u32,
    },
    /// Change the owner of a path without following a final symlink.
    Lchown {
        /// The NUL-terminated path.
        path: Vec<u8>,
        /// The new owner, or the unchanged sentinel.
        owner: u32,
        /// The new group, or the unchanged sentinel.
        group: u32,
    },
}

/// The owner or group word for an optional id: the id itself, or the
/// all-ones sentinel that leaves the field unchanged.
pub open spec fn spec_id_or_keep(id: Option<u32>) -> u32 {
    match id {
        Some(v) => v,
        None => u32::MAX,
    }
}

/// Builds the open request for a path, flags word and creation mode.
pub fn open_request(path: &[u8], flags: i32, mode: u32) -> (a: Action)
    requires
        !has_nul(path@),
    ensures
        a matches Action::Open { path: p, flags: f, mode: m } && p@ == with_nul(path@) && f
            == flags && m == mode,
{
    Action::Open { path: to_c_bytes(path), flags, mode }
}

/// Builds the create request for a path: open read-only, creating the
/// file and truncating it if it exists.
pub fn creat_request(path: &[u8], mode: u32) -> (a: Action)
    requires
        !has_nul(path@),
    ensures
        a matches Action::Open { path: p, flags: f, mode: m } && p@ == with_nul(path@) && f == (
        O_RDONLY | O_CREAT | O_TRUNC) && m == mode,
{
    Action::Open { path: to_c_bytes(path), flags: O_RDONLY | O_CREAT | O_TRUNC, mode }
}

/// Builds the hard-link request joining a new name to an existing file.
pub fn hard_link(original: &[u8], link: &[u8]) -> (a: Action)
    requires
        !has_nul(original@),
        !has_nul(link@),
    ensures
        a matches Action::Link { old_path, new_path } && old_path@ == with_nul(original@)
            && new_path@ == with_nul(link@),
{
    Action::Link { old_path: to_c_bytes(original), new_path: to_c_bytes(link) }
}

/// Builds the unlink request that removes a file.
pub fn remove_file(path: &[u8]) -> (a: Action)
    requires
        !has_nul(path@),
    ensures
        a matches Action::Unlink { path: p } && p@ == with_nul(path@),
{
    Action::Unlink { path: to_c_bytes(path) }
}

/// Builds the symlink request making a new link holding a target.
pub fn symlink(original: &[u8], link: &[u8]) -> (a: Action)
    requires
        !has_nul(original@),
        !has_nul(link@),
    ensures
        a matches Action::Symlink { target, link_path } && target@ == with_nul(original@)
            && link_path@ == with_nul(link@),
{
    Action::Symlink { target: to_c_bytes(original), link_path: to_c_bytes(link) }
}

/// Builds the make-directory request for a path, with the default
/// directory mode.
pub fn create_dir(path: &[u8]) -> (a: Action)
    requires
        !has_nul(path@),
    ensures
        a matches Action::Mkdir { path: p, mode } && p@ == with_nul(path@) && mode == DIR_MODE,
{
    Action::Mkdir { path: to_c_bytes(path), mode: DIR_MODE }
}

/// Builds the make-directory request for a path and mode.
pub fn mkdir_request(path: &[u8], mode: u32) -> (a: Action)
    requires
        !has_nul(path@),
    ensures
        a matches Action::Mkdir { path: p, mode: m } && p@ == with_nul(path@) && m == mode,
{
    Action::Mkdir { path: to_c_bytes(path), mode }
}

/// Builds the remove-directory request for a path.
pub fn remove_dir(path: &[u8]) -> (a: Action)
    requires
        !has_nul(path@),
    ensures
        a matches Action::Rmdir { path: p } && p@ == with_nul(path@),
{
    Action::Rmdir { path: to_c_bytes(path) }
}

/// Builds the rename request moving a file to a new name.
pub fn rename(from: &[u8], to: &[u8]) -> (a: Action)
    requires
        !has_nul(from@),
        !has_nul(to@),
    ensures
        a matches Action::Rename { old_path, new_path } && old_path@ == with_nul(from@)
            && new_path@ == with_nul(to@),
{
    Action::Rename { old_path: to_c_bytes(from), new_path: to_c_bytes(to) }
}

/// Builds the plain status query for the file a path names.
pub fn stat_request(path: &[u8]) -> (a: Action)
    requires
        !has_nul(path@),
    ensures
        a matches Action::Stat { path: p } && p@ == with_nul(path@),
{
    Action::Stat { path: to_c_bytes(path) }
}

/// Builds the plain status query that does not follow a final symlink.
pub fn lstat_request(path: &[u8]) -> (a: Action)
    requires
        !has_nul(path@),
    ensures
        a matches Action::Lstat { path: p } && p@ == with_nul(path@),
{
    Action::Lstat { path: to_c_bytes(path) }
}

/// Builds the extended status query for the file a path names, asking
/// for every basic field.
pub fn metadata(path: &[u8]) -> (a: Action)
    requires
        !has_nul(path@),
    ensures
        a matches Action::Statx { path: p, flags, mask } && p@ == with_nul(path@) && flags == 0
            && mask == STATX_ALL,
{
    Action::Statx { path: to_c_bytes(path), flags: 0, mask: STATX_ALL }
}

/// Builds the extended status query for a path without following a final
/// symlink.
pub fn symlink_metadata(path: &[u8]) -> (a: Action)
    requires
        !has_nul(path@),
    ensures
        a matches Action::Statx { path: p, flags, mask } && p@ == with_nul(path@) && flags
            == AT_SYMLINK_NOFOLLOW && mask == STATX_ALL,
{
    Action::Statx { path: to_c_bytes(path), flags: AT_SYMLINK_NOFOLLOW, mask: STATX_ALL }
}

/// Builds the extended status query for an open descriptor: the empty
/// path with the empty-path flag makes the query read the descriptor
/// itself.
pub fn fstatx_request(fd: i32) -> (a: Action)
    ensures
        a matches Action::Fstatx { fd: f, path, flags, mask } && f == fd && path@ == seq![0u8]
            && flags == AT_EMPTY_PATH && mask == STATX_ALL,
{
    let mut path: Vec<u8> = Vec::new();
    path.push(0);
    proof {
        assert(path@ =~= seq![0u8]);
    }
    Action::Fstatx { fd, path, flags: AT_EMPTY_PATH, mask: STATX_ALL }
}

/// Builds the open request for enumerating a directory: read-only with
/// directory semantics.
pub fn read_dir(path: &[u8]) -> (a: Action)
    requires
        !has_nul(path@),
    ensures
        a matches Action::Open { path: p, flags, mode } && p@ == with_nul(path@) && flags == (
        O_RDONLY | O_DIRECTORY) && mode == 0,
{
    Action::Open { path: to_c_bytes(path), flags: O_RDONLY | O_DIRECTORY, mode: 0 }
}

/// Builds the read-symlink request for a path, with a target buffer of
/// the longest path the kernel accepts.
pub fn read_link(path: &[u8]) -> (a: Action)
    requires
        !has_nul(path@),
    ensures
        a matches Action::Readlink { path: p, buf_size } && p@ == with_nul(path@) && buf_size
            == PATH_MAX,
{
    Action::Readlink { path: to_c_bytes(path), buf_size: PATH_MAX }
}

/// Builds the change-mode request applying permissions to a path.
pub fn set_permissions(path: &[u8], perm: &Permissions) -> (a: Action)
    requires
        !has_nul(path@),
    ensures
        a matches Action::Chmod { path: p, mode } && p@ == with_nul(path@) && mode == perm.bits,
{
    Action::Chmod { path: to_c_bytes(path), mode: perm.bits }
}

/// Builds the change-owner request for a path.  A missing id becomes the
/// all-ones sentinel, which leaves that field unchanged.
pub fn chown(path: &[u8], uid: Option<u32>, gid: Option<u32>) -> (a: Action)
    requires
        !has_nul(path@),
    ensures
        a matches Action::Chown { path: p, owner, group } && p@ == with_nul(path@) && owner
            == spec_id_or_keep(uid) && group == spec_id_or_keep(gid),
{
    Action::Chown {
        path: to_c_bytes(path),
        owner: uid.unwrap_or(u32::MAX),
        group: gid.unwrap_or(u32::MAX),
    }
}

/// Builds the change-owner request for an open descriptor.
pub fn fchown_request(fd: i32, uid: Option<u32>, gid: Option<u32>) -> (a: Action)
    ensures
        a matches Action::Fchown { fd: f, owner, group } && f == fd && owner == spec_id_or_keep(
            uid,
        ) && group == spec_id_or_keep(gid),
{
    Action::Fchown { fd, owner: uid.unwrap_or(u32::MAX), group: gid.unwrap_or(u32::MAX) }
}

/// Builds the change-owner request that does not follow a final symlink.
pub fn lchown(path: &[u8], uid: Option<u32>, gid: Option<u32>) -> (a: Action)
    requires
        !has_nul(path@),
    ensures
        a matches Action::Lchown { path: p, owner, group } && p@ == with_nul(path@) && owner
            == spec_id_or_keep(uid) && group == spec_id_or_keep(gid),
{
    Action::Lchown {
        path: to_c_bytes(path),
        owner: uid.unwrap_or(u32::MAX),
        group: gid.unwrap_or(u32::MAX),
    }
}

/// Builds the change-root request for a path.
pub fn chroot(path: &[u8]) -> (a: Action)
    requires
        !has_nul(path@),
    ensures
        a matches Action::Chroot { path: p } && p@ == with_nul(path@),
{
    Action::Chroot { path: to_c_bytes(path) }
}

/// Builds the seek request for a descriptor, an offset and an origin.
pub fn seek_request(fd: i32, offset: i64, whence: Whence) -> (a: Action)
    ensures
        a matches Action::Seek { fd: f, offset: o, whence: w } && f == fd && o == offset && w
            == spec_whence_code(whence),
{
    Action::Seek { fd, offset, whence: whence.code() }
}

/// Builds the truncate request for a descriptor, rejecting a length that
/// does not fit the kernel's signed length word.
pub fn ftruncate_request(fd: i32, length: u64) -> (r: Result<Action, i32>)
    ensures
        length <= i64::MAX ==> (r matches Ok(a) && a matches Action::Ftruncate {
            fd: f,
            length: l,
        } && f == fd && l == length as i64),
        length > i64::MAX ==> r == Result::<Action, i32>::Err(EINVAL),
{
    if length <= i64::MAX as u64 {
        Ok(Action::Ftruncate { fd, length: length as i64 })
    } else {
        Err(EINVAL)
    }
}

/// Builds the change-timestamps request for a descriptor from a pair of
/// timestamp instructions.
pub fn futimens_request(fd: i32, atime: &TimestampSpec, mtime: &TimestampSpec) -> (a: Action)
    ensures
        a matches Action::Utimens { fd: f, atime: at, mtime: mt } && f == fd && at
            == crate::times::spec_timespec_of(*atime) && mt == crate::times::spec_timespec_of(
            *mtime,
        ),
{
    Action::Utimens { fd, atime: atime.to_timespec(), mtime: mtime.to_timespec() }
}

/// Reads the raw return word of a status query as an existence test:
/// success means the path exists, the not-found error means it does not,
/// and any other error is passed through.
pub fn try_exists(ret: usize) -> (r: Result<bool, i32>)
    ensures
        r == (match decode_outcome(ret) {
            Ok(_) => Result::<bool, i32>::Ok(true),
            Err(e) => if e == ENOENT {
                Result::<bool, i32>::Ok(false)
            } else {
                Result::<bool, i32>::Err(e)
            },
        }),
{
    match decode_raw(ret) {
        Ok(_) => Ok(true),
        Err(e) => {
            if e == ENOENT {
                Ok(false)
            } else {
                Err(e)
            }
        },
    }
}

} // verus!

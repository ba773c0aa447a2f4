//! The kernel's file-status records, decoded from the raw buffers the
//! stat family of operations fills.
//!
//! The kernel writes fixed little-endian layouts; the parsers here read
//! every field at its documented offset with explicit bounds checks
//! instead of reinterpreting memory.

use vstd::prelude::*;
use crate::bytes::{le16, le32, le64, le64_signed, read_le16, read_le32, read_le64,
    read_le64_signed};
use crate::device;
use crate::meta::{file_type_of_mode, FileType, Permissions};

verus! {

/// Size in bytes of the kernel's plain file-status record.
pub const STAT_SIZE: usize = 144;

/// Size in bytes of the kernel's extended file-status record.
pub const STATX_SIZE: usize = 256;

/// The plain file-status record.
#[derive(Copy, Clone, Debug)]
pub struct Stat {
    /// Device holding the file.
    pub st_dev: u64,
    /// Inode number.
    pub st_ino: u64,
    /// Number of hard links.
    pub st_nlink: u64,
    /// File type and permission bits.
    pub st_mode: u32,
    /// Owner user id.
    pub st_uid: u32,
    /// Owner group id.
    pub st_gid: u32,
    /// Device number of a device special file.
    pub st_rdev: u64,
    /// Size in bytes.
    pub st_size: i64,
    /// Preferred I/O block size.
    pub st_blksize: i64,
    /// Number of 512-byte blocks allocated.
    pub st_blocks: i64,
    /// Seconds of the last access time.
    pub st_atime: i64,
    /// Nanoseconds of the last access time.
    pub st_atime_nsec: i64,
    /// Seconds of the last modification time.
    pub st_mtime: i64,
    /// Nanoseconds of the last modification time.
    pub st_mtime_nsec: i64,
    /// Seconds of the last status change time.
    pub st_ctime: i64,
    /// Nanoseconds of the last status change time.
    pub st_ctime_nsec: i64,
}

/// Decodes a plain file-status record from the buffer the kernel filled.
pub fn parse_stat(buf: &[u8]) -> (s: Stat)
    requires
        buf@.len() >= STAT_SIZE,
    ensures
        s.st_dev == le64(buf@, 0),
        s.st_ino == le64(buf@, 8),
        s.st_nlink == le64(buf@, 16),
        s.st_mode == le32(buf@, 24),
        s.st_uid == le32(buf@, 28),
        s.st_gid == le32(buf@, 32),
        s.st_rdev == le64(buf@, 40),
        s.st_size == le64_signed(buf@, 48),
        s.st_blksize == le64_signed(buf@, 56),
        s.st_blocks == le64_signed(buf@, 64),
        s.st_atime == le64_signed(buf@, 72),
        s.st_atime_nsec == le64_signed(buf@, 80),
        s.st_mtime == le64_signed(buf@, 88),
        s.st_mtime_nsec == le64_signed(buf@, 96),
        s.st_ctime == le64_signed(buf@, 104),
        s.st_ctime_nsec == le64_signed(buf@, 112),
{
    Stat {
        st_dev: read_le64(buf, 0),
        st_ino: read_le64(buf, 8),
        st_nlink: read_le64(buf, 16),
        st_mode: read_le32(buf, 24),
        st_uid: read_le32(buf, 28),
        st_gid: read_le32(buf, 32),
        st_rdev: read_le64(buf, 40),
        st_size: read_le64_signed(buf, 48),
        st_blksize: read_le64_signed(buf, 56),
        st_blocks: read_le64_signed(buf, 64),
        st_atime: read_le64_signed(buf, 72),
        st_atime_nsec: read_le64_signed(buf, 80),
        st_mtime: read_le64_signed(buf, 88),
        st_mtime_nsec: read_le64_signed(buf, 96),
        st_ctime: read_le64_signed(buf, 104),
        st_ctime_nsec: read_le64_signed(buf, 112),
    }
}

impl Stat {
    /// The (major, minor) pair of the device holding the file.
    pub fn dev(&self) -> (r: (u32, u32))
        ensures
            r.0 == device::spec_major(self.st_dev),
            r.1 == device::spec_minor(self.st_dev),
    {
        (device::major(self.st_dev), device::minor(self.st_dev))
    }

    /// The inode number.
    pub fn ino(&self) -> (r: u64)
        ensures
            r == self.st_ino,
    {
        self.st_ino
    }

    /// The number of hard links.
    pub fn nlink(&self) -> (r: u64)
        ensures
            r == self.st_nlink,
    {
        self.st_nlink
    }

    /// The file type and permission bits.
    pub fn mode(&self) -> (r: u32)
        ensures
            r == self.st_mode,
    {
        self.st_mode
    }

    /// The file type encoded in the mode field.
    pub fn file_type(&self) -> (t: FileType)
        requires
            file_type_of_mode(self.st_mode) is Some,
        ensures
            Some(t) == file_type_of_mode(self.st_mode),
    {
        FileType::from_mode(self.st_mode)
    }

    /// The permission bits of the mode field.
    pub fn permission(&self) -> (p: Permissions)
        ensures
            p.bits == self.st_mode & 0o7777,
    {
        Permissions { bits: self.st_mode & 0o7777 }
    }

    /// The owner's user id.
    pub fn uid(&self) -> (r: u32)
        ensures
            r == self.st_uid,
    {
        self.st_uid
    }

    /// The owner's group id.
    pub fn gid(&self) -> (r: u32)
        ensures
            r == self.st_gid,
    {
        self.st_gid
    }

    /// The (major, minor) pair of a device special file.
    pub fn rdev(&self) -> (r: (u32, u32))
        ensures
            r.0 == device::spec_major(self.st_rdev),
            r.1 == device::spec_minor(self.st_rdev),
    {
        (device::major(self.st_rdev), device::minor(self.st_rdev))
    }

    /// The file size in bytes.
    pub fn size(&self) -> (r: i64)
        ensures
            r == self.st_size,
    {
        self.st_size
    }

    /// The preferred I/O block size.
    pub fn blksize(&self) -> (r: i64)
        ensures
            r == self.st_blksize,
    {
        self.st_blksize
    }

    /// The number of 512-byte blocks allocated.
    pub fn blocks(&self) -> (r: i64)
        ensures
            r == self.st_blocks,
    {
        self.st_blocks
    }

    /// The last access time as seconds and nanoseconds.
    pub fn atime(&self) -> (r: (i64, i64))
        ensures
            r == (self.st_atime, self.st_atime_nsec),
    {
        (self.st_atime, self.st_atime_nsec)
    }

    /// The last modification time as seconds and nanoseconds.
    pub fn mtime(&self) -> (r: (i64, i64))
        ensures
            r == (self.st_mtime, self.st_mtime_nsec),
    {
        (self.st_mtime, self.st_mtime_nsec)
    }

    /// The last status change time as seconds and nanoseconds.
    pub fn ctime(&self) -> (r: (i64, i64))
        ensures
            r == (self.st_ctime, self.st_ctime_nsec),
    {
        (self.st_ctime, self.st_ctime_nsec)
    }
}

/// One timestamp of the extended file-status record.
#[derive(Copy, Clone, Debug, Eq, PartialEq, Structural)]
pub struct StatxTimestamp {
    /// Whole seconds since the epoch.
    pub tv_sec: i64,
    /// Nanoseconds within the second.
    pub tv_nsec: u32,
}

/// The extended file-status record, with separate major and minor device
/// fields, a birth timestamp, an attribute mask and a mount id.
#[derive(Copy, Clone, Debug)]
pub struct Statx {
    /// Which fields the kernel filled in.
    pub stx_mask: u32,
    /// Preferred I/O block size.
    pub stx_blksize: u32,
    /// Extra file attribute indicators.
    pub stx_attributes: u64,
    /// Number of hard links.
    pub stx_nlink: u32,
    /// Owner user id.
    pub stx_uid: u32,
    /// Owner group id.
    pub stx_gid: u32,
    /// File type and permission bits.
    pub stx_mode: u16,
    /// Inode number.
    pub stx_ino: u64,
    /// Size in bytes.
    pub stx_size: u64,
    /// Number of blocks allocated.
    pub stx_blocks: u64,
    /// Which attribute bits are meaningful.
    pub stx_attributes_mask: u64,
    /// Last access time.
    pub stx_atime: StatxTimestamp,
    /// Creation time.
    pub stx_btime: StatxTimestamp,
    /// Last status change time.
    pub stx_ctime: StatxTimestamp,
    /// Last modification time.
    pub stx_mtime: StatxTimestamp,
    /// Major number of a device special file.
    pub stx_rdev_major: u32,
    /// Minor number of a device special file.
    pub stx_rdev_minor: u32,
    /// Major number of the device holding the file.
    pub stx_dev_major: u32,
    /// Minor number of the device holding the file.
    pub stx_dev_minor: u32,
    /// Mount id.
    pub stx_mnt_id: u64,
}

/// Decodes one timestamp of the extended record at the given offset.
fn parse_statx_timestamp(buf: &[u8], off: usize) -> (t: StatxTimestamp)
    requires
        off + 12 <= buf@.len(),
    ensures
        t.tv_sec == le64_signed(buf@, off as int),
        t.tv_nsec == le32(buf@, off as int + 8),
{
    // Binds the buffer length to a machine word, so the offset sums below
    // are known not to overflow.
    let n: usize = buf.len();
    StatxTimestamp { tv_sec: read_le64_signed(buf, off), tv_nsec: read_le32(buf, off + 8) }
}

/// Decodes an extended file-status record from the buffer the kernel
/// filled.
pub fn parse_statx(buf: &[u8]) -> (s: Statx)
    requires
        buf@.len() >= STATX_SIZE,
    ensures
        s.stx_mask == le32(buf@, 0),
        s.stx_blksize == le32(buf@, 4),
        s.stx_attributes == le64(buf@, 8),
        s.stx_nlink == le32(buf@, 16),
        s.stx_uid == le32(buf@, 20),
        s.stx_gid == le32(buf@, 24),
        s.stx_mode == le16(buf@, 28),
        s.stx_ino == le64(buf@, 32),
        s.stx_size == le64(buf@, 40),
        s.stx_blocks == le64(buf@, 48),
        s.stx_attributes_mask == le64(buf@, 56),
        s.stx_atime == (StatxTimestamp { tv_sec: le64_signed(buf@, 64), tv_nsec: le32(buf@, 72) }),
        s.stx_btime == (StatxTimestamp { tv_sec: le64_signed(buf@, 80), tv_nsec: le32(buf@, 88) }),
        s.stx_ctime == (StatxTimestamp { tv_sec: le64_signed(buf@, 96), tv_nsec: le32(buf@, 104) }),
        s.stx_mtime == (StatxTimestamp {
            tv_sec: le64_signed(buf@, 112),
            tv_nsec: le32(buf@, 120),
        }),
        s.stx_rdev_major == le32(buf@, 128),
        s.stx_rdev_minor == le32(buf@, 132),
        s.stx_dev_major == le32(buf@, 136),
        s.stx_dev_minor == le32(buf@, 140),
        s.stx_mnt_id == le64(buf@, 144),
{
    Statx {
        stx_mask: read_le32(buf, 0),
        stx_blksize: read_le32(buf, 4),
        stx_attributes: read_le64(buf, 8),
        stx_nlink: read_le32(buf, 16),
        stx_uid: read_le32(buf, 20),
        stx_gid: read_le32(buf, 24),
        stx_mode: read_le16(buf, 28),
        stx_ino: read_le64(buf, 32),
        stx_size: read_le64(buf, 40),
        stx_blocks: read_le64(buf, 48),
        stx_attributes_mask: read_le64(buf, 56),
        stx_atime: parse_statx_timestamp(buf, 64),
        stx_btime: parse_statx_timestamp(buf, 80),
        stx_ctime: parse_statx_timestamp(buf, 96),
        stx_mtime: parse_statx_timestamp(buf, 112),
        stx_rdev_major: read_le32(buf, 128),
        stx_rdev_minor: read_le32(buf, 132),
        stx_dev_major: read_le32(buf, 136),
        stx_dev_minor: read_le32(buf, 140),
        stx_mnt_id: read_le64(buf, 144),
    }
}

impl Statx {
    /// The preferred I/O block size.
    pub fn blksize(&self) -> (r: u32)
        ensures
            r == self.stx_blksize,
    {
        self.stx_blksize
    }

    /// The extra file attribute indicators.
    pub fn attributes(&self) -> (r: u64)
        ensures
            r == self.stx_attributes,
    {
        self.stx_attributes
    }

    /// The number of hard links.
    pub fn nlink(&self) -> (r: u32)
        ensures
            r == self.stx_nlink,
    {
        self.stx_nlink
    }

    /// The owner's user id.
    pub fn uid(&self) -> (r: u32)
        ensures
            r == self.stx_uid,
    {
        self.stx_uid
    }

    /// The owner's group id.
    pub fn gid(&self) -> (r: u32)
        ensures
            r == self.stx_gid,
    {
        self.stx_gid
    }

    /// The file type and permission bits, widened to 32 bits.
    pub fn mode(&self) -> (r: u32)
        ensures
            r == self.stx_mode as u32,
    {
        self.stx_mode as u32
    }

    /// The permission bits of the mode field.
    pub fn permission(&self) -> (p: Permissions)
        ensures
            p.bits == (self.stx_mode as u32) & 0o7777,
    {
        Permissions { bits: (self.stx_mode as u32) & 0o7777 }
    }

    /// The file type encoded in the mode field.
    pub fn file_type(&self) -> (t: FileType)
        requires
            file_type_of_mode(self.stx_mode as u32) is Some,
        ensures
            Some(t) == file_type_of_mode(self.stx_mode as u32),
    {
        FileType::from_mode(self.stx_mode as u32)
    }

    /// The inode number.
    pub fn ino(&self) -> (r: u64)
        ensures
            r == self.stx_ino,
    {
        self.stx_ino
    }

    /// The file size in bytes.
    pub fn size(&self) -> (r: u64)
        ensures
            r == self.stx_size,
    {
        self.stx_size
    }

    /// The number of blocks allocated.
    pub fn blocks(&self) -> (r: u64)
        ensures
            r == self.stx_blocks,
    {
        self.stx_blocks
    }

    /// The last access time as seconds and nanoseconds.
    pub fn atime(&self) -> (r: (i64, u32))
        ensures
            r == (self.stx_atime.tv_sec, self.stx_atime.tv_nsec),
    {
        (self.stx_atime.tv_sec, self.stx_atime.tv_nsec)
    }

    /// The creation time as seconds and nanoseconds.
    pub fn btime(&self) -> (r: (i64, u32))
        ensures
            r == (self.stx_btime.tv_sec, self.stx_btime.tv_nsec),
    {
        (self.stx_btime.tv_sec, self.stx_btime.tv_nsec)
    }

    /// The last status change time as seconds and nanoseconds.
    pub fn ctime(&self) -> (r: (i64, u32))
        ensures
            r == (self.stx_ctime.tv_sec, self.stx_ctime.tv_nsec),
    {
        (self.stx_ctime.tv_sec, self.stx_ctime.tv_nsec)
    }

    /// The last modification time as seconds and nanoseconds.
    pub fn mtime(&self) -> (r: (i64, u32))
        ensures
            r == (self.stx_mtime.tv_sec, self.stx_mtime.tv_nsec),
    {
        (self.stx_mtime.tv_sec, self.stx_mtime.tv_nsec)
    }

    /// The (major, minor) pair of a device special file.
    pub fn rdev(&self) -> (r: (u32, u32))
        ensures
            r == (self.stx_rdev_major, self.stx_rdev_minor),
    {
        (self.stx_rdev_major, self.stx_rdev_minor)
    }

    /// The (major, minor) pair of the device holding the file.
    pub fn dev(&self) -> (r: (u32, u32))
        ensures
            r == (self.stx_dev_major, self.stx_dev_minor),
    {
        (self.stx_dev_major, self.stx_dev_minor)
    }

    /// The mount id.
    pub fn mnt_id(&self) -> (r: u64)
        ensures
            r == self.stx_mnt_id,
    {
        self.stx_mnt_id
    }
}

} // verus!

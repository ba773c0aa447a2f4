//! File types, permission values and the metadata record built from the
//! extended file-status query.

use vstd::prelude::*;
use crate::abi::Statx;
use crate::times::SystemTime;

verus! {

/// Mask of the file-type bits in a mode word.
pub const S_IFMT: u32 = 0o170000;

/// File-type bits: FIFO.
pub const S_IFIFO: u32 = 0o010000;

/// File-type bits: character device.
pub const S_IFCHR: u32 = 0o020000;

/// File-type bits: directory.
pub const S_IFDIR: u32 = 0o040000;

/// File-type bits: block device.
pub const S_IFBLK: u32 = 0o060000;

/// File-type bits: regular file.
pub const S_IFREG: u32 = 0o100000;

/// File-type bits: symbolic link.
pub const S_IFLNK: u32 = 0o120000;

/// File-type bits: socket.
pub const S_IFSOCK: u32 = 0o140000;

/// Directory-entry type tag: FIFO.
pub const DT_FIFO: u8 = 1;

/// Directory-entry type tag: character device.
pub const DT_CHR: u8 = 2;

/// Directory-entry type tag: directory.
pub const DT_DIR: u8 = 4;

/// Directory-entry type tag: block device.
pub const DT_BLK: u8 = 6;

/// Directory-entry type tag: regular file.
pub const DT_REG: u8 = 8;

/// Directory-entry type tag: socket.
pub const DT_SOCK: u8 = 12;

/// The type of a file: one of the seven kinds the kernel knows.
#[derive(Copy, Clone, Debug, Hash, PartialEq, Eq, Structural)]
pub enum FileType {
    /// A regular file.
    RegularFile,
    /// A directory.
    Directory,
    /// A socket.
    Socket,
    /// A FIFO.
    Fifo,
    /// A character device.
    CharDev,
    /// A block device.
    BlkDev,
    /// A symbolic link.
    Symlink,
}

/// The file type that the type bits of a mode word name, if they name one.
pub open spec fn file_type_of_mode(mode: u32) -> Option<FileType> {
    if mode & S_IFMT == S_IFDIR {
        Some(FileType::Directory)
    } else if mode & S_IFMT == S_IFCHR {
        Some(FileType::CharDev)
    } else if mode & S_IFMT == S_IFBLK {
        Some(FileType::BlkDev)
    } else if mode & S_IFMT == S_IFREG {
        Some(FileType::RegularFile)
    } else if mode & S_IFMT == S_IFIFO {
        Some(FileType::Fifo)
    } else if mode & S_IFMT == S_IFLNK {
        Some(FileType::Symlink)
    } else if mode & S_IFMT == S_IFSOCK {
        Some(FileType::Socket)
    } else {
        None
    }
}

/// The file type that a directory-entry type tag names.  A tag that names
/// none of the first six kinds is read as a symbolic link.
pub open spec fn file_type_of_dtype(d: u8) -> FileType {
    if d == DT_REG {
        FileType::RegularFile
    } else if d == DT_DIR {
        FileType::Directory
    } else if d == DT_SOCK {
        FileType::Socket
    } else if d == DT_FIFO {
        FileType::Fifo
    } else if d == DT_CHR {
        FileType::CharDev
    } else if d == DT_BLK {
        FileType::BlkDev
    } else {
        FileType::Symlink
    }
}

impl FileType {
    /// The file type encoded in a mode word's type bits.
    pub fn from_mode(mode: u32) -> (t: FileType)
        requires
            file_type_of_mode(mode) is Some,
        ensures
            Some(t) == file_type_of_mode(mode),
    {
        let kind: u32 = mode & S_IFMT;
        if kind == S_IFDIR {
            FileType::Directory
        } else if kind == S_IFCHR {
            FileType::CharDev
        } else if kind == S_IFBLK {
            FileType::BlkDev
        } else if kind == S_IFREG {
            FileType::RegularFile
        } else if kind == S_IFIFO {
            FileType::Fifo
        } else if kind == S_IFLNK {
            FileType::Symlink
        } else {
            FileType::Socket
        }
    }

    /// The file type a directory-entry type tag names.
    pub fn from_dtype(d: u8) -> (t: FileType)
        ensures
            t == file_type_of_dtype(d),
    {
        if d == DT_REG {
            FileType::RegularFile
        } else if d == DT_DIR {
            FileType::Directory
        } else if d == DT_SOCK {
            FileType::Socket
        } else if d == DT_FIFO {
            FileType::Fifo
        } else if d == DT_CHR {
            FileType::CharDev
        } else if d == DT_BLK {
            FileType::BlkDev
        } else {
            FileType::Symlink
        }
    }

    /// Whether this is a directory.
    pub fn is_dir(&self) -> (b: bool)
        ensures
            b == (*self is Directory),
    {
        matches!(self, FileType::Directory)
    }

    /// Whether this is a regular file.
    pub fn is_file(&self) -> (b: bool)
        ensures
            b == (*self is RegularFile),
    {
        matches!(self, FileType::RegularFile)
    }

    /// Whether this is a symbolic link.
    pub fn is_symlink(&self) -> (b: bool)
        ensures
            b == (*self is Symlink),
    {
        matches!(self, FileType::Symlink)
    }

    /// Whether this is a block device.
    pub fn is_block_device(&self) -> (b: bool)
        ensures
            b == (*self is BlkDev),
    {
        matches!(self, FileType::BlkDev)
    }

    /// Whether this is a character device.
    pub fn is_char_device(&self) -> (b: bool)
        ensures
            b == (*self is CharDev),
    {
        matches!(self, FileType::CharDev)
    }

    /// Whether this is a FIFO.
    pub fn is_fifo(&self) -> (b: bool)
        ensures
            b == (*self is Fifo),
    {
        matches!(self, FileType::Fifo)
    }

    /// Whether this is a socket.
    pub fn is_socket(&self) -> (b: bool)
        ensures
            b == (*self is Socket),
    {
        matches!(self, FileType::Socket)
    }
}

/// The permission bits of a file, as a plain mode word.
#[derive(Copy, Clone, Debug, PartialEq, Eq, Structural)]
pub struct Permissions {
    /// The raw mode bits.
    pub bits: u32,
}

impl Permissions {
    /// Whether these permissions forbid writing: no class has the write
    /// bit.
    pub fn readonly(&self) -> (b: bool)
        ensures
            b == (self.bits & 0o222 == 0),
    {
        self.bits & 0o222 == 0
    }

    /// Sets or clears the write bits of every class.
    pub fn set_readonly(&mut self, readonly: bool)
        ensures
            readonly ==> final(self).bits == old(self).bits & !0o222u32,
            !readonly ==> final(self).bits == old(self).bits | 0o222u32,
    {
        if readonly {
            self.bits = self.bits & !0o222u32;
        } else {
            self.bits = self.bits | 0o222u32;
        }
    }

    /// The raw mode bits.
    pub fn mode(&self) -> (r: u32)
        ensures
            r == self.bits,
    {
        self.bits
    }

    /// Replaces the raw mode bits.
    pub fn set_mode(&mut self, mode: u32)
        ensures
            final(self).bits == mode,
    {
        self.bits = mode;
    }

    /// Permissions from a raw mode word, kept as given.
    pub fn from_mode(mode: u32) -> (p: Permissions)
        ensures
            p.bits == mode,
    {
        Permissions { bits: mode }
    }
}

/// Metadata about a file, as the extended file-status query reports it.
#[derive(Copy, Clone, Debug)]
pub struct Metadata {
    /// The raw extended file-status record.
    pub status: Statx,
}

impl Metadata {
    /// Whether the record's mode word names one of the seven file types.
    /// The kernel always fills one in; a record built by hand may not.
    pub open spec fn wf(&self) -> bool {
        file_type_of_mode(self.status.stx_mode as u32) is Some
    }

    /// The file type of this metadata.
    pub fn file_type(&self) -> (t: FileType)
        requires
            self.wf(),
        ensures
            Some(t) == file_type_of_mode(self.status.stx_mode as u32),
    {
        self.status.file_type()
    }

    /// Whether this metadata is for a directory.
    pub fn is_dir(&self) -> (b: bool)
        requires
            self.wf(),
        ensures
            b == (file_type_of_mode(self.status.stx_mode as u32) == Some(FileType::Directory)),
    {
        self.file_type().is_dir()
    }

    /// Whether this metadata is for a regular file.
    pub fn is_file(&self) -> (b: bool)
        requires
            self.wf(),
        ensures
            b == (file_type_of_mode(self.status.stx_mode as u32) == Some(FileType::RegularFile)),
    {
        self.file_type().is_file()
    }

    /// Whether this metadata is for a symbolic link.
    pub fn is_symlink(&self) -> (b: bool)
        requires
            self.wf(),
        ensures
            b == (file_type_of_mode(self.status.stx_mode as u32) == Some(FileType::Symlink)),
    {
        self.file_type().is_symlink()
    }

    /// The size of the file in bytes.
    pub fn len(&self) -> (r: u64)
        ensures
            r == self.status.stx_size,
    {
        self.status.size()
    }

    /// The whole mode word as permissions, type bits included.
    pub fn permission(&self) -> (p: Permissions)
        ensures
            p.bits == self.status.stx_mode as u32,
    {
        Permissions::from_mode(self.status.mode())
    }

    /// The last modification time.
    pub fn modified(&self) -> (r: Result<SystemTime, i32>)
        ensures
            r == Result::<SystemTime, i32>::Ok(
                SystemTime {
                    sec: self.status.stx_mtime.tv_sec,
                    nsec: self.status.stx_mtime.tv_nsec as i64,
                },
            ),
    {
        let (sec, nsec) = self.status.mtime();
        Ok(SystemTime::new(sec, nsec as i64))
    }

    /// The last access time.
    pub fn accessed(&self) -> (r: Result<SystemTime, i32>)
        ensures
            r == Result::<SystemTime, i32>::Ok(
                SystemTime {
                    sec: self.status.stx_atime.tv_sec,
                    nsec: self.status.stx_atime.tv_nsec as i64,
                },
            ),
    {
        let (sec, nsec) = self.status.atime();
        Ok(SystemTime::new(sec, nsec as i64))
    }

    /// The creation time: the extended record's birth timestamp.
    pub fn created(&self) -> (r: Result<SystemTime, i32>)
        ensures
            r == Result::<SystemTime, i32>::Ok(
                SystemTime {
                    sec: self.status.stx_btime.tv_sec,
                    nsec: self.status.stx_btime.tv_nsec as i64,
                },
            ),
    {
        let (sec, nsec) = self.status.btime();
        Ok(SystemTime::new(sec, nsec as i64))
    }
}

} // verus!

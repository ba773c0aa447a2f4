//! The open-flag resolver: maps a set of boolean open intents onto the
//! kernel's open-flags word, rejecting invalid combinations.

use vstd::prelude::*;
use crate::gateway::EINVAL;

verus! {

/// Read-only access.
pub const O_RDONLY: i32 = 0;
/// Write-only access.
pub const O_WRONLY: i32 = 1;
/// Read-write access.
pub const O_RDWR: i32 = 2;
/// Mask of the access-mode bits.
pub const O_ACCMODE: i32 = 0o3;
/// Create the file if it does not exist.
pub const O_CREAT: i32 = 0o100;
/// Fail if the file already exists.
pub const O_EXCL: i32 = 0o200;
/// Truncate an existing regular file to zero length.
pub const O_TRUNC: i32 = 0o1000;
/// Every write appends to the end of the file.
pub const O_APPEND: i32 = 0o2000;
/// Fail if the path is not a directory.
pub const O_DIRECTORY: i32 = 0o200000;
/// Close the descriptor when the process image is replaced.
pub const O_CLOEXEC: i32 = 0o2000000;

/// Options and flags which configure how a file is opened.
#[derive(Copy, Clone, Debug)]
pub struct OpenOptions {
    /// Open for reading.
    pub read: bool,
    /// Open for writing.
    pub write: bool,
    /// Every write appends; implies write access.
    pub append: bool,
    /// Truncate the file to zero length on open.
    pub truncate: bool,
    /// Create the file if it is missing.
    pub create: bool,
    /// Create the file and fail if it already exists.
    pub create_new: bool,
    /// Extra caller-supplied flag bits.
    pub custom_flags: i32,
    /// Permission bits for a newly created file.
    pub mode: u32,
}

/// The access-mode bits that a (read, write, append) intent asks for, or
/// the invalid-argument error when no access mode at all is requested.
pub open spec fn spec_access_mode(read: bool, write: bool, append: bool) -> Result<i32, i32> {
    if append {
        if read {
            Ok(O_RDWR | O_APPEND)
        } else {
            Ok(O_WRONLY | O_APPEND)
        }
    } else if read && write {
        Ok(O_RDWR)
    } else if read {
        Ok(O_RDONLY)
    } else if write {
        Ok(O_WRONLY)
    } else {
        Err(EINVAL)
    }
}

/// The creation bits that a valid intent asks for.  Creation or truncation
/// without write access is invalid, and truncating an append-mode file is
/// invalid unless exclusive creation overrides it.
pub open spec fn spec_creation_mode(o: OpenOptions) -> Result<i32, i32> {
    if !o.write && !o.append {
        if o.truncate || o.create || o.create_new {
            Err(EINVAL)
        } else {
            Ok(0)
        }
    } else if o.append && o.truncate && !o.create_new {
        Err(EINVAL)
    } else if o.create_new {
        Ok(O_CREAT | O_EXCL)
    } else if o.create && o.truncate {
        Ok(O_CREAT | O_TRUNC)
    } else if o.create {
        Ok(O_CREAT)
    } else if o.truncate {
        Ok(O_TRUNC)
    } else {
        Ok(0)
    }
}

/// The full flags word for an intent: close-on-exec, the access mode, the
/// creation bits, and the caller's extra flags with their access-mode bits
/// masked out.
pub open spec fn spec_resolve(o: OpenOptions) -> Result<i32, i32> {
    match (spec_access_mode(o.read, o.write, o.append), spec_creation_mode(o)) {
        (Ok(a), Ok(c)) => Ok(O_CLOEXEC | a | c | (o.custom_flags & !O_ACCMODE)),
        (Err(e), _) => Err(e),
        (_, Err(e)) => Err(e),
    }
}

impl OpenOptions {
    /// A blank set of options: no access, no creation, mode `0o666`.
    pub fn new() -> (o: OpenOptions)
        ensures
            o == (OpenOptions {
                read: false,
                write: false,
                append: false,
                truncate: false,
                create: false,
                create_new: false,
                custom_flags: 0,
                mode: 0o666,
            }),
    {
        OpenOptions {
            read: false,
            write: false,
            append: false,
            truncate: false,
            create: false,
            create_new: false,
            custom_flags: 0,
            mode: 0o666,
        }
    }

    /// Sets the option for read access.
    pub fn read(self, read: bool) -> (o: OpenOptions)
        ensures
            o == (OpenOptions { read, ..self }),
    {
        OpenOptions { read, ..self }
    }

    /// Sets the option for write access.
    pub fn write(self, write: bool) -> (o: OpenOptions)
        ensures
            o == (OpenOptions { write, ..self }),
    {
        OpenOptions { write, ..self }
    }

    /// Sets the option for append mode; appending implies write access.
    pub fn append(self, append: bool) -> (o: OpenOptions)
        ensures
            o == (OpenOptions { append, ..self }),
    {
        OpenOptions { append, ..self }
    }

    /// Sets the option for truncating an existing file on open.
    pub fn truncate(self, truncate: bool) -> (o: OpenOptions)
        ensures
            o == (OpenOptions { truncate, ..self }),
    {
        OpenOptions { truncate, ..self }
    }

    /// Sets the option for creating the file when it is missing.
    pub fn create(self, create: bool) -> (o: OpenOptions)
        ensures
            o == (OpenOptions { create, ..self }),
    {
        OpenOptions { create, ..self }
    }

    /// Sets the option for creating a new file, failing if it exists.
    pub fn create_new(self, create_new: bool) -> (o: OpenOptions)
        ensures
            o == (OpenOptions { create_new, ..self }),
    {
        OpenOptions { create_new, ..self }
    }

    /// Sets the permission mode bits used when a file is created.
    pub fn mode(self, mode: u32) -> (o: OpenOptions)
        ensures
            o == (OpenOptions { mode, ..self }),
    {
        OpenOptions { mode, ..self }
    }

    /// Sets extra flag bits handed through to the open call.
    pub fn custom_flags(self, custom_flags: i32) -> (o: OpenOptions)
        ensures
            o == (OpenOptions { custom_flags, ..self }),
    {
        OpenOptions { custom_flags, ..self }
    }

    /// The access-mode bits this intent asks for.
    pub fn get_access_mode(&self) -> (r: Result<i32, i32>)
        ensures
            r == spec_access_mode(self.read, self.write, self.append),
    {
        if self.append {
            if self.read {
                Ok(O_RDWR | O_APPEND)
            } else {
                Ok(O_WRONLY | O_APPEND)
            }
        } else if self.read && self.write {
            Ok(O_RDWR)
        } else if self.read {
            Ok(O_RDONLY)
        } else if self.write {
            Ok(O_WRONLY)
        } else {
            Err(EINVAL)
        }
    }

    /// The creation bits this intent asks for, after the validity checks.
    pub fn get_creation_mode(&self) -> (r: Result<i32, i32>)
        ensures
            r == spec_creation_mode(*self),
    {
        if !self.write && !self.append {
            if self.truncate || self.create || self.create_new {
                return Err(EINVAL);
            }
            return Ok(0);
        }
        if self.append && self.truncate && !self.create_new {
            return Err(EINVAL);
        }
        if self.create_new {
            Ok(O_CREAT | O_EXCL)
        } else if self.create && self.truncate {
            Ok(O_CREAT | O_TRUNC)
        } else if self.create {
            Ok(O_CREAT)
        } else if self.truncate {
            Ok(O_TRUNC)
        } else {
            Ok(0)
        }
    }

    /// The complete flags word handed to the open call, or the
    /// invalid-argument error for an invalid combination of intents.
    pub fn resolve(&self) -> (r: Result<i32, i32>)
        ensures
            r == spec_resolve(*self),
    {
        let access: i32 = match self.get_access_mode() {
            Ok(a) => a,
            Err(e) => {
                return Err(e);
            },
        };
        let creation: i32 = match self.get_creation_mode() {
            Ok(c) => c,
            Err(e) => {
                return Err(e);
            },
        };
        Ok(O_CLOEXEC | access | creation | (self.custom_flags & !O_ACCMODE))
    }
}

} // verus!

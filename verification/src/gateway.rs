//! Decoding of the kernel's single-word return convention.
//!
//! A raw syscall returns one machine word.  Values in the narrow band that
//! corresponds to negated error numbers 1..=4095 are errors; every other
//! value, however large, is a success value.

use vstd::prelude::*;

verus! {

/// Error number: no such file or directory.
pub const ENOENT: i32 = 2;

/// Error number: input/output error.
pub const EIO: i32 = 5;

/// Error number: invalid argument.
pub const EINVAL: i32 = 22;

/// The largest error number the kernel ever reports.
pub const MAX_ERRNO: usize = 4095;

/// What a raw return word means: an error number, or the value itself.
/// The word is an error exactly when, read as a signed machine word, it
/// lies in -4095..=-1; every other value is success, so large success
/// values such as byte counts are never misread as errors.
pub open spec fn decode_outcome(ret: usize) -> Result<usize, i32> {
    if ret >= usize::MAX - (MAX_ERRNO - 1) {
        Err(((usize::MAX - ret + 1) as i32))
    } else {
        Ok(ret)
    }
}

/// Splits a raw syscall return word into a success value or an error number.
pub fn decode_raw(ret: usize) -> (r: Result<usize, i32>)
    ensures
        r == decode_outcome(ret),
{
    if ret >= usize::MAX - (MAX_ERRNO - 1) {
        Err((usize::MAX - ret + 1) as i32)
    } else {
        Ok(ret)
    }
}

/// Decodes the return word of an operation whose success carries no value.
pub fn decode_unit(ret: usize) -> (r: Result<(), i32>)
    ensures
        r matches Ok(()) <==> decode_outcome(ret) matches Ok(_),
        r matches Err(e) ==> decode_outcome(ret) == Result::<usize, i32>::Err(e),
{
    match decode_raw(ret) {
        Ok(_) => Ok(()),
        Err(e) => Err(e),
    }
}

/// Decodes the return word of an operation whose success value is a new
/// file descriptor.
pub fn decode_fd(ret: usize) -> (r: Result<i32, i32>)
    ensures
        r matches Ok(fd) ==> decode_outcome(ret) matches Ok(v) && fd == v as i32,
        r matches Err(e) ==> decode_outcome(ret) == Result::<usize, i32>::Err(e),
{
    match decode_raw(ret) {
        Ok(v) => Ok(#[verifier::truncate] (v as i32)),
        Err(e) => Err(e),
    }
}

/// Decodes the return word of an operation whose success value is a count
/// of bytes, such as a read, a write or a directory-entry fill.
pub fn decode_len(ret: usize) -> (r: Result<usize, i32>)
    ensures
        r == decode_outcome(ret),
{
    decode_raw(ret)
}

} // verus!

//! Byte-string helpers: NUL scanning for C-style path marshalling and
//! little-endian field extraction from kernel-filled buffers.

use vstd::prelude::*;

verus! {

/// Whether a byte string holds a NUL byte anywhere.
pub open spec fn has_nul(s: Seq<u8>) -> bool {
    exists|i: int| 0 <= i < s.len() && s[i] == 0u8
}

/// A byte string with a terminating NUL appended.
pub open spec fn with_nul(s: Seq<u8>) -> Seq<u8> {
    s.push(0u8)
}

/// Scans a byte string for a NUL byte.
pub fn contains_nul(s: &[u8]) -> (b: bool)
    ensures
        b == has_nul(s@),
{
    let mut i: usize = 0;
    while i < s.len()
        invariant
            0 <= i <= s@.len(),
            forall|j: int| 0 <= j < i ==> s@[j] != 0u8,
        decreases s@.len() - i,
    {
        if s[i] == 0 {
            return true;
        }
        i += 1;
    }
    false
}

/// Copies a byte string and appends the terminating NUL that the kernel's
/// path arguments require.
pub fn to_c_bytes(s: &[u8]) -> (v: Vec<u8>)
    requires
        !has_nul(s@),
    ensures
        v@ == with_nul(s@),
{
    let mut v: Vec<u8> = Vec::new();
    let mut i: usize = 0;
    while i < s.len()
        invariant
            0 <= i <= s@.len(),
            v@ == s@.take(i as int),
        decreases s@.len() - i,
    {
        v.push(s[i]);
        i += 1;
    }
    assert(v@ == s@);
    v.push(0);
    v
}

/// The unsigned 16-bit value that two little-endian bytes hold.
pub open spec fn le16(s: Seq<u8>, i: int) -> u16 {
    (s[i] as u16) | ((s[i + 1] as u16) << 8)
}

/// The unsigned 32-bit value that four little-endian bytes hold.
pub open spec fn le32(s: Seq<u8>, i: int) -> u32 {
    (s[i] as u32) | ((s[i + 1] as u32) << 8) | ((s[i + 2] as u32) << 16) | ((s[i + 3] as u32)
        << 24)
}

/// The unsigned 64-bit value that eight little-endian bytes hold.
pub open spec fn le64(s: Seq<u8>, i: int) -> u64 {
    (s[i] as u64) | ((s[i + 1] as u64) << 8) | ((s[i + 2] as u64) << 16) | ((s[i + 3] as u64)
        << 24) | ((s[i + 4] as u64) << 32) | ((s[i + 5] as u64) << 40) | ((s[i + 6] as u64)
        << 48) | ((s[i + 7] as u64) << 56)
}

/// The signed 64-bit value that eight little-endian bytes hold, read as a
/// two's-complement machine word.
pub open spec fn le64_signed(s: Seq<u8>, i: int) -> i64 {
    le64(s, i) as i64
}

/// Reads an unsigned 16-bit little-endian field.
pub fn read_le16(s: &[u8], i: usize) -> (v: u16)
    requires
        i + 2 <= s@.len(),
    ensures
        v == le16(s@, i as int),
{
    (s[i] as u16) | ((s[i + 1] as u16) << 8u16)
}

/// Reads an unsigned 32-bit little-endian field.
pub fn read_le32(s: &[u8], i: usize) -> (v: u32)
    requires
        i + 4 <= s@.len(),
    ensures
        v == le32(s@, i as int),
{
    (s[i] as u32) | ((s[i + 1] as u32) << 8u32) | ((s[i + 2] as u32) << 16u32) | ((s[i + 3]
        as u32) << 24u32)
}

/// Reads an unsigned 64-bit little-endian field.
pub fn read_le64(s: &[u8], i: usize) -> (v: u64)
    requires
        i + 8 <= s@.len(),
    ensures
        v == le64(s@, i as int),
{
    (s[i] as u64) | ((s[i + 1] as u64) << 8u64) | ((s[i + 2] as u64) << 16u64) | ((s[i + 3]
        as u64) << 24u64) | ((s[i + 4] as u64) << 32u64) | ((s[i + 5] as u64) << 40u64) | ((s[i
        + 6] as u64) << 48u64) | ((s[i + 7] as u64) << 56u64)
}

/// Reads a signed 64-bit little-endian field.
pub fn read_le64_signed(s: &[u8], i: usize) -> (v: i64)
    requires
        i + 8 <= s@.len(),
    ensures
        v == le64_signed(s@, i as int),
{
    let u: u64 = read_le64(s, i);
    #[verifier::truncate] (u as i64)
}

} // verus!

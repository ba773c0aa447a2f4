//! Packing and unpacking of the kernel's composite device identifier.
//!
//! A device number packs a (major, minor) pair into one 64-bit word:
//! the major number occupies bits 8..=19 and 32..=63, the minor number
//! bits 0..=7 and 20..=31.

use vstd::prelude::*;

verus! {

/// The major half of a packed device number.
pub open spec fn spec_major(dev: u64) -> u32 {
    (((dev & 0x00000000000fff00) >> 8) | ((dev & 0xfffff00000000000) >> 32)) as u32
}

/// The minor half of a packed device number.
pub open spec fn spec_minor(dev: u64) -> u32 {
    ((dev & 0x00000000000000ff) | ((dev & 0x00000ffffff00000) >> 12)) as u32
}

/// A (major, minor) pair packed into one device number.
pub open spec fn spec_makedev(major: u32, minor: u32) -> u64 {
    (((major as u64) & 0x00000fff) << 8) | (((major as u64) & 0xfffff000) << 32)
        | ((minor as u64) & 0x000000ff) | (((minor as u64) & 0xffffff00) << 12)
}

/// Extracts the major number from a packed device number.
pub fn major(dev: u64) -> (m: u32)
    ensures
        m == spec_major(dev),
{
    let v: u64 = ((dev & 0x00000000000fff00) >> 8) | ((dev & 0xfffff00000000000) >> 32);
    #[verifier::truncate] (v as u32)
}

/// Extracts the minor number from a packed device number.
pub fn minor(dev: u64) -> (m: u32)
    ensures
        m == spec_minor(dev),
{
    let v: u64 = (dev & 0x00000000000000ff) | ((dev & 0x00000ffffff00000) >> 12);
    #[verifier::truncate] (v as u32)
}

/// Packs a (major, minor) pair into one device number.
pub fn makedev(major: u32, minor: u32) -> (dev: u64)
    ensures
        dev == spec_makedev(major, minor),
{
    (((major as u64) & 0x00000fff) << 8) | (((major as u64) & 0xfffff000) << 32)
        | ((minor as u64) & 0x000000ff) | (((minor as u64) & 0xffffff00) << 12)
}

/// Every representable (major, minor) pair survives a trip through the
/// packed encoding: decoding what `makedev` packed gives the pair back.
pub proof fn lemma_device_id_round_trip(major: u32, minor: u32)
    by (bit_vector)
    ensures
        spec_major(spec_makedev(major, minor)) == major,
        spec_minor(spec_makedev(major, minor)) == minor,
{
}

} // verus!

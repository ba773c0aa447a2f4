//! Device-number packing: concrete values and round trips through the
//! kernel's bit layout, cross-checked against the C library.

use rawfs::device::{major, makedev, minor};

#[test]
fn low_bits_pack_classically() {
    // The classic low layout: major in bits 8..=15, minor in 0..=7.
    assert_eq!(makedev(8, 1), 0x801);
    assert_eq!(major(0x801), 8);
    assert_eq!(minor(0x801), 1);
}

#[test]
fn high_extensions_round_trip() {
    // Values that spill into the high extension words.
    let cases: [(u32, u32); 6] = [
        (0, 0),
        (0xfff, 0xff),
        (0x1000, 0x100),
        (0x12345, 0xABCDE),
        (u32::MAX, u32::MAX),
        (259, 1048575),
    ];
    let mut idx = 0;
    while idx < cases.len() {
        let (maj, min) = cases[idx];
        let dev = makedev(maj, min);
        assert_eq!(major(dev), maj);
        assert_eq!(minor(dev), min);
        idx += 1;
    }
}

#[test]
fn packing_matches_libc() {
    let cases: [(u32, u32); 4] = [(8, 1), (0x1000, 0x100), (0x12345, 0xABCDE), (259, 7)];
    let mut idx = 0;
    while idx < cases.len() {
        let (maj, min) = cases[idx];
        assert_eq!(makedev(maj, min), libc::makedev(maj, min));
        let dev = libc::makedev(maj, min);
        assert_eq!(major(dev), libc::major(dev));
        assert_eq!(minor(dev), libc::minor(dev));
        idx += 1;
    }
}

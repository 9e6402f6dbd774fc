//! Checksum behaviour of the JEDEC writer.

use galette::writer::{file_checksum, CheckSummer};

#[test]
fn file_checksum_wraps() {
    let input = &[0xFF; 0x101];
    assert_eq!(file_checksum(input), 0xFFFF);

    let input = &[0xFF; 0x102];
    assert_eq!(file_checksum(input), 0x00FE);
}

#[test]
fn file_checksum_empty_and_small() {
    assert_eq!(file_checksum(&[]), 0);
    assert_eq!(file_checksum(&[1, 2, 3]), 6);
    assert_eq!(file_checksum(&[0xFF, 0x01]), 0x100);
}

#[test]
fn fuse_checksum_packs_bits_little_endian() {
    // The first bit of a byte is its least significant one.
    let mut cs = CheckSummer::new();
    cs.add(true);
    assert_eq!(cs.get(), 0x01);
    for _ in 0..7 {
        cs.add(false);
    }
    assert_eq!(cs.get(), 0x01);
    // A full byte of ones is 0xFF; two are 0x1FE.
    let mut cs = CheckSummer::new();
    for _ in 0..8 {
        cs.add(true);
    }
    assert_eq!(cs.get(), 0xFF);
    for _ in 0..8 {
        cs.add(true);
    }
    assert_eq!(cs.get(), 0x1FE);
    // A trailing partial byte is padded with zeros.
    let mut cs = CheckSummer::new();
    cs.add(false);
    cs.add(true);
    cs.add(true);
    assert_eq!(cs.get(), 0x06);
}

use lazuli::ipl::{decode_ipl, Ipl};
use lazuli::memory::IPL_LEN;

const KEY: [u8; 16] = [137, 126, 71, 127, 244, 66, 63, 226, 161, 68, 50, 166, 48, 19, 188, 209];

#[test]
fn keystream_first_bytes() {
    let mut data = vec![0u8; 20];
    decode_ipl(&mut data, 2, 18);
    assert_eq!(&data[2..18], &KEY);
    assert_eq!(data[0], 0);
    assert_eq!(data[19], 0);
}

#[test]
fn decoding_twice_restores() {
    let original: Vec<u8> = (0..300).map(|i| (i * 7) as u8).collect();
    let mut data = original.clone();
    decode_ipl(&mut data, 10, 290);
    assert_ne!(data, original);
    decode_ipl(&mut data, 10, 290);
    assert_eq!(data, original);
}

#[test]
fn ipl_new_decodes_ntsc_range() {
    let data = vec![0u8; IPL_LEN];
    let ipl = Ipl::new(data);
    let bytes = ipl.as_slice();
    assert_eq!(bytes[0xFF], 0);
    assert_eq!(&bytes[0x100..0x110], &KEY);
    assert_eq!(bytes[0x0015_EE40], 0);
}

#[test]
fn ipl_new_detects_pal() {
    let message = b"(C) 1999-2001 Nintendo.  All rights reserved.(C) 1999 ArtX Inc.  All rights reserved.PAL  Revision 1.0  ";
    let mut data = vec![0u8; IPL_LEN];
    data[..message.len()].copy_from_slice(message);
    let ntsc_end = 0x0015_EE40;
    let ipl = Ipl::new(data);
    let bytes = ipl.as_slice();
    assert_eq!(&bytes[..message.len()], &message[..]);
    // the PAL range reaches further than the NTSC one
    let mut expected_tail = vec![0u8; 0x001A_EEE8 - ntsc_end];
    let mut reference = vec![0u8; 0x001A_EEE8];
    decode_ipl(&mut reference, 0x100, 0x001A_EEE8);
    expected_tail.copy_from_slice(&reference[ntsc_end..0x001A_EEE8]);
    assert_eq!(&bytes[ntsc_end..0x001A_EEE8], &expected_tail[..]);
}

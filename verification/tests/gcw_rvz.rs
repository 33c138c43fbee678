use lazuli::gcw_rvz::{parse_disk, parse_header, unpack, FileSectionFormat, PackedFormat, ReadFailure, ReadStep, Rvz};
use lazuli::rvz::ReadCursor;

fn seed() -> [u32; 17] {
    let mut s = [0u32; 17];
    for i in 0..17 {
        s[i] = (i as u32).wrapping_mul(0x0101_0101).wrapping_add(7);
    }
    s
}

fn padded(len: u32) -> Vec<u8> {
    let mut b = Vec::new();
    b.extend_from_slice(&(0x8000_0000u32 | len).to_be_bytes());
    for w in seed() {
        b.extend_from_slice(&w.to_be_bytes());
    }
    b
}

#[test]
fn format_bits() {
    let f = FileSectionFormat(0x8000_0010);
    assert!(f.is_compressed());
    assert_eq!(f.length(), 0x10);
    assert!(PackedFormat(0x8000_0001).is_padding());
    assert_eq!(PackedFormat(0x7).length(), 7);
}

#[test]
fn legacy_padding_stream() {
    let out = unpack(&padded(8), 0).unwrap();
    assert_eq!(out, vec![182, 142, 100, 41, 150, 155, 114, 227]);
    let out = unpack(&padded(4), 3).unwrap();
    assert_eq!(out, vec![41, 150, 155, 114]);
    let out = unpack(&padded(4), 0x8003).unwrap();
    assert_eq!(out, vec![41, 150, 155, 114]);
}

#[test]
fn legacy_unpack_data_chunks() {
    let mut b = Vec::new();
    b.extend_from_slice(&2u32.to_be_bytes());
    b.extend_from_slice(&[9, 8]);
    assert_eq!(unpack(&b, 0).unwrap(), vec![9, 8]);
    assert!(unpack(&b[..5], 0).is_none());
}

fn be(b: &mut Vec<u8>, x: u32) {
    b.extend_from_slice(&x.to_be_bytes());
}

fn header_bytes() -> Vec<u8> {
    let mut b = vec![b'R', b'V', b'Z', 1, 1, 0, 0, 0, 1, 0, 0, 0];
    be(&mut b, 0xDC);
    b.extend_from_slice(&[0; 20]);
    b.extend_from_slice(&0x60u64.to_be_bytes());
    b.extend_from_slice(&0x100u64.to_be_bytes());
    b.extend_from_slice(&[0; 20]);
    b
}

fn disk_bytes(chunk: u32) -> Vec<u8> {
    let mut b = Vec::new();
    be(&mut b, 1);
    be(&mut b, 5);
    be(&mut b, 0);
    be(&mut b, chunk);
    b.extend_from_slice(&[0; 0x80]);
    be(&mut b, 0);
    be(&mut b, 0);
    b.extend_from_slice(&0u64.to_be_bytes());
    b.extend_from_slice(&[0; 20]);
    be(&mut b, 1);
    b.extend_from_slice(&0u64.to_be_bytes());
    be(&mut b, 0);
    be(&mut b, 3);
    b.extend_from_slice(&0u64.to_be_bytes());
    be(&mut b, 0);
    b.push(0);
    b.extend_from_slice(&[0; 7]);
    b
}

/// A disk of 0x50 bytes in one disk section of three file sections with chunks of 0x20
/// bytes: the last holds 0x50 % 0x20 = 0x10 bytes.
fn sample() -> (Rvz, Vec<u8>) {
    let header = parse_header(&header_bytes()).unwrap();
    let disk = parse_disk(&disk_bytes(0x20)).unwrap();
    let mut dtable = Vec::new();
    dtable.extend_from_slice(&0u64.to_be_bytes());
    dtable.extend_from_slice(&0x50u64.to_be_bytes());
    be(&mut dtable, 0);
    be(&mut dtable, 3);
    let mut ftable = Vec::new();
    for i in 0..3u32 {
        be(&mut ftable, 0x10 * i);
        be(&mut ftable, 0x20);
        be(&mut ftable, 0);
    }
    let rvz = Rvz::new(
        header,
        disk,
        &zstd::bulk::compress(&dtable, 3).unwrap(),
        &zstd::bulk::compress(&ftable, 3).unwrap(),
    )
    .unwrap();
    let file: Vec<u8> = (0..0xA0).map(|i| i as u8).collect();
    (rvz, file)
}

#[test]
fn legacy_find_file_section_sizes_last_chunk() {
    let (rvz, _) = sample();
    let f = rvz.find_file_section(0, 3, 0x50, 0x45).unwrap();
    assert_eq!(f.computed_start, 0x40);
    assert_eq!(f.computed_length, 0x10);
    let f = rvz.find_file_section(0, 3, 0x50, 0x25).unwrap();
    assert_eq!(f.computed_start, 0x20);
    assert_eq!(f.computed_length, 0x20);
    assert!(rvz.find_file_section(0, 3, 0x50, 0x50).is_none());
    let f = rvz.find_file_section(0, 3, 0x60, 0x55).unwrap();
    assert_eq!(f.computed_length, 0x20);
}

#[test]
fn legacy_read_whole_disk() {
    let (rvz, file) = sample();
    let mut out = vec![0u8; 0x50];
    let mut c = ReadCursor::start(0, 0x50);
    loop {
        let step = rvz.read_step(&c);
        match step {
            ReadStep::Done => break,
            ReadStep::Fail(e) => panic!("{e:?}"),
            ReadStep::Fetch { file_offset, len, .. } => {
                let fetched = &file[file_offset as usize..(file_offset + len) as usize];
                c = rvz.read_advance(&c, &step, fetched, &mut out).unwrap();
            }
        }
    }
    assert_eq!(&out[..0x20], &file[0..0x20]);
    assert_eq!(&out[0x20..0x40], &file[0x40..0x60]);
    assert_eq!(&out[0x40..0x50], &file[0x80..0x90]);
}

#[test]
fn legacy_read_past_disk_fails() {
    let (rvz, _) = sample();
    let c = ReadCursor::start(0x50, 1);
    assert_eq!(rvz.read_step(&c), ReadStep::Fail(ReadFailure::DiskSectionNotFound(0x50)));
}

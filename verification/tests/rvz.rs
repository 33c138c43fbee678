use lazuli::rvz::{
    decode_disk_sections, decode_file_sections, unpack, Compression, CompressionFormat, DiskHeader,
    DiskSection, FileSection, PackedChunk, PackingFormat, Prng, ReadCursor, ReadStep, Rvz, RvzError,
    RvzHeader, RvzReader, SeekTarget, Sha1Hash, DISK_HEADER_LEN,
};

fn seed() -> [u32; 17] {
    let mut s = [0u32; 17];
    for i in 0..17 {
        s[i] = (i as u32).wrapping_mul(0x0101_0101).wrapping_add(7);
    }
    s
}

#[test]
fn compression_format_bits() {
    let f = CompressionFormat(0x8000_0123);
    assert!(f.is_compressed());
    assert_eq!(f.len(), 0x123);
    assert!(!f.is_zeroed());
    assert!(CompressionFormat(0x8000_0000).is_zeroed());
    assert!(!CompressionFormat(0x10).is_compressed());
}

#[test]
fn packing_and_chunk_bits() {
    assert!(!PackingFormat(0).is_packed());
    assert_eq!(PackingFormat(0x40).len(), 0x40);
    let c = PackedChunk(0x8000_0004);
    assert!(c.is_padding());
    assert_eq!(c.len(), 4);
    assert!(!PackedChunk(3).is_padding());
}

#[test]
fn disk_section_parse_moves_padding_into_length() {
    let mut b = Vec::new();
    b.extend_from_slice(&0x8010u64.to_be_bytes());
    b.extend_from_slice(&0x100u64.to_be_bytes());
    b.extend_from_slice(&3u32.to_be_bytes());
    b.extend_from_slice(&2u32.to_be_bytes());
    let d = DiskSection::parse(&b, 0);
    assert_eq!(d, DiskSection { disk_offset: 0x8000, disk_len: 0x110, file_sections_index: 3, file_sections_count: 2 });
    assert!(d.contains(0x8000));
    assert!(d.contains(0x810F));
    assert!(!d.contains(0x8110));
    assert!(!d.contains(0x7FFF));
}

#[test]
fn file_section_parse_multiplies_offset() {
    let mut b = Vec::new();
    b.extend_from_slice(&0x10u32.to_be_bytes());
    b.extend_from_slice(&0x8000_0020u32.to_be_bytes());
    b.extend_from_slice(&0u32.to_be_bytes());
    let f = FileSection::parse(&b, 0);
    assert_eq!(f.file_offset, 0x40);
    assert_eq!(f.compression, CompressionFormat(0x8000_0020));
    assert_eq!(f.packing, PackingFormat(0));
}

fn rvz_header_bytes() -> Vec<u8> {
    let mut b = vec![b'R', b'V', b'Z', 1, 1, 2, 3, 4, 5, 6, 7, 8];
    b.extend_from_slice(&0xDCu32.to_be_bytes());
    b.extend_from_slice(&[0x11; 20]);
    b.extend_from_slice(&0x1234_5678u64.to_be_bytes());
    b.extend_from_slice(&0x9ABCu64.to_be_bytes());
    b.extend_from_slice(&[0x22; 20]);
    b
}

#[test]
fn rvz_header_parses_fields() {
    let h = RvzHeader::parse(&rvz_header_bytes()).unwrap();
    assert_eq!(h.inner.version.major, 1);
    assert_eq!(h.inner.version.beta, 4);
    assert_eq!(h.inner.compatible_version.minor, 6);
    assert_eq!(h.inner.disk_header_len, 0xDC);
    assert_eq!(h.inner.disk_header_sha1.0, [0x11; 20]);
    assert_eq!(h.inner.disk_len, 0x1234_5678);
    assert_eq!(h.inner.rvz_len, 0x9ABC);
    assert_eq!(h.hash.0, [0x22; 20]);
}

#[test]
fn rvz_header_refuses_bad_magic_and_short_input() {
    let mut b = rvz_header_bytes();
    b[3] = 2;
    assert_eq!(RvzHeader::parse(&b).unwrap_err(), RvzError::ParsingRvzHeader);
    assert_eq!(RvzHeader::parse(&rvz_header_bytes()[..71]).unwrap_err(), RvzError::ParsingRvzHeader);
}

fn disk_header_bytes(compression: u32, chunk: u32) -> Vec<u8> {
    let mut b = Vec::new();
    b.extend_from_slice(&1u32.to_be_bytes());
    b.extend_from_slice(&compression.to_be_bytes());
    b.extend_from_slice(&5u32.to_be_bytes());
    b.extend_from_slice(&chunk.to_be_bytes());
    b.extend_from_slice(&[0x33; 0x80]);
    b.extend_from_slice(&0u32.to_be_bytes());
    b.extend_from_slice(&0u32.to_be_bytes());
    b.extend_from_slice(&0u64.to_be_bytes());
    b.extend_from_slice(&[0; 20]);
    b.extend_from_slice(&1u32.to_be_bytes());
    b.extend_from_slice(&0x1000u64.to_be_bytes());
    b.extend_from_slice(&0x40u32.to_be_bytes());
    b.extend_from_slice(&2u32.to_be_bytes());
    b.extend_from_slice(&0x2000u64.to_be_bytes());
    b.extend_from_slice(&0x50u32.to_be_bytes());
    b.push(0);
    b.extend_from_slice(&[0; 7]);
    b
}

#[test]
fn disk_header_parses_fields() {
    let b = disk_header_bytes(5, 0x20);
    assert_eq!(b.len(), DISK_HEADER_LEN);
    let d = DiskHeader::parse(&b).unwrap();
    assert_eq!(d.compression, Compression::Zstd);
    assert_eq!(d.compression_level, 5);
    assert_eq!(d.chunk_len, 0x20);
    assert_eq!(d.disk_sections_count, 1);
    assert_eq!(d.disk_sections_offset, 0x1000);
    assert_eq!(d.file_sections_count, 2);
    assert_eq!(d.file_sections_size, 0x50);
}

#[test]
fn disk_header_refuses_unknown_compression() {
    assert_eq!(DiskHeader::parse(&disk_header_bytes(9, 0x20)).unwrap_err(), RvzError::ParsingDiskHeader);
    assert_eq!(DiskHeader::parse(&disk_header_bytes(5, 0x20)[..100]).unwrap_err(), RvzError::ParsingDiskHeader);
}

#[test]
fn prng_first_bytes() {
    let mut p = Prng::from_seed(&seed());
    let bytes: Vec<u8> = (0..8).map(|_| p.next()).collect();
    assert_eq!(bytes, vec![20, 45, 191, 37, 70, 170, 226, 14]);
}

#[test]
fn prng_skip_drops_that_many_bytes() {
    let mut p = Prng::from_seed(&seed());
    p.skip(5);
    assert_eq!((0..4).map(|_| p.next()).collect::<Vec<u8>>(), vec![170, 226, 14, 185]);
    let mut p = Prng::from_seed(&seed());
    p.skip(2086);
    assert_eq!((0..4).map(|_| p.next()).collect::<Vec<u8>>(), vec![198, 132, 216, 33]);
    for n in [0usize, 1, 16, 17, 20, 2083, 2084, 2085, 5000] {
        let mut p = Prng::from_seed(&seed());
        let mut q = Prng::from_seed(&seed());
        p.skip(n);
        for _ in 0..n {
            q.next();
        }
        assert_eq!((0..8).map(|_| p.next()).collect::<Vec<u8>>(), (0..8).map(|_| q.next()).collect::<Vec<u8>>());
    }
}

#[test]
fn prng_refills_after_a_round() {
    let mut p = Prng::from_seed(&seed());
    let bytes: Vec<u8> = (0..2090).map(|_| p.next()).collect();
    assert_eq!(&bytes[2082..], &[194, 212, 241, 73, 198, 132, 216, 33]);
}

fn packed_sample() -> Vec<u8> {
    let mut b = Vec::new();
    b.extend_from_slice(&3u32.to_be_bytes());
    b.extend_from_slice(b"abc");
    b.extend_from_slice(&0x8000_0004u32.to_be_bytes());
    for w in seed() {
        b.extend_from_slice(&w.to_be_bytes());
    }
    b
}

#[test]
fn unpack_copies_data_and_generates_padding() {
    let out = unpack(&packed_sample(), 0).unwrap();
    assert_eq!(out, vec![b'a', b'b', b'c', 20, 45, 191, 37]);
    let out = unpack(&packed_sample(), 0x8005).unwrap();
    assert_eq!(&out[3..], &[170, 226, 14, 185]);
}

#[test]
fn unpack_refuses_truncated_chunks() {
    let b = packed_sample();
    assert!(unpack(&b[..5], 0).is_none());
    assert!(unpack(&b[..20], 0).is_none());
    assert!(unpack(&b[..2], 0).is_none());
    assert_eq!(unpack(&[], 0).unwrap(), Vec::<u8>::new());
}

fn zstd_table(bytes: &[u8]) -> Vec<u8> {
    zstd::bulk::compress(bytes, 3).unwrap()
}

fn disk_section_table(sections: &[(u64, u64, u32, u32)]) -> Vec<u8> {
    let mut b = Vec::new();
    for &(off, len, idx, count) in sections {
        b.extend_from_slice(&off.to_be_bytes());
        b.extend_from_slice(&len.to_be_bytes());
        b.extend_from_slice(&idx.to_be_bytes());
        b.extend_from_slice(&count.to_be_bytes());
    }
    b
}

fn file_section_table(sections: &[(u32, u32, u32)]) -> Vec<u8> {
    let mut b = Vec::new();
    for &(off4, comp, pack) in sections {
        b.extend_from_slice(&off4.to_be_bytes());
        b.extend_from_slice(&comp.to_be_bytes());
        b.extend_from_slice(&pack.to_be_bytes());
    }
    b
}

#[test]
fn section_tables_decompress() {
    let mut disk = DiskHeader::parse(&disk_header_bytes(5, 0x20)).unwrap();
    disk.disk_sections_count = 1;
    let table = disk_section_table(&[(0, 0x40, 0, 2)]);
    let ds = decode_disk_sections(&disk, &zstd_table(&table)).unwrap();
    assert_eq!(ds, vec![DiskSection { disk_offset: 0, disk_len: 0x40, file_sections_index: 0, file_sections_count: 2 }]);
    disk.file_sections_count = 2;
    let ftable = file_section_table(&[(0x10, 0x20, 0), (0x18, 0x8000_0000, 0)]);
    let fs = decode_file_sections(&disk, &zstd_table(&ftable)).unwrap();
    assert_eq!(fs.len(), 2);
    assert_eq!(fs[0].file_offset, 0x40);
    assert_eq!(fs[1].compression, CompressionFormat(0x8000_0000));
}

#[test]
fn section_tables_report_errors() {
    let mut disk = DiskHeader::parse(&disk_header_bytes(5, 0x20)).unwrap();
    disk.disk_sections_count = 2;
    let table = disk_section_table(&[(0, 0x40, 0, 2)]);
    assert_eq!(decode_disk_sections(&disk, &zstd_table(&table)).unwrap_err(), RvzError::ParsingDiskSections);
    assert_eq!(decode_disk_sections(&disk, &[1, 2, 3]).unwrap_err(), RvzError::Decompressing);
    disk.compression = Compression::Uncompressed;
    disk.file_sections_count = 1;
    let fs = decode_file_sections(&disk, &file_section_table(&[(1, 2, 3)])).unwrap();
    assert_eq!(fs[0], FileSection { file_offset: 4, compression: CompressionFormat(2), packing: PackingFormat(3) });
    disk.file_sections_count = 2;
    assert_eq!(decode_file_sections(&disk, &file_section_table(&[(1, 2, 3)])).unwrap_err(), RvzError::ParsingFileSections);
}

/// A RVZ whose disk is 0x40 bytes in one disk section of two 0x20-byte chunks: the first
/// stored as is at file offset 0x40, the second zeroed.
fn sample_rvz() -> (Rvz, Vec<u8>) {
    let header = RvzHeader::parse(&rvz_header_bytes()).unwrap();
    let disk = DiskHeader::parse(&disk_header_bytes(5, 0x20)).unwrap();
    let dtable = zstd_table(&disk_section_table(&[(0, 0x40, 0, 2)]));
    let ftable = zstd_table(&file_section_table(&[(0x10, 0x20, 0), (0x18, 0x8000_0000, 0)]));
    let rvz = Rvz::new(header, disk, &dtable, &ftable).unwrap();
    let mut file = vec![0xEEu8; 0x40];
    file.extend((0..0x20).map(|i| i as u8 + 1));
    (rvz, file)
}

fn read_all(rvz: &Rvz, file: &[u8], offset: u64, len: usize) -> Result<(Vec<u8>, u64), RvzError> {
    let mut out = vec![0xFFu8; len];
    let mut c = ReadCursor::start(offset, len as u64);
    loop {
        let step = rvz.read_step(&c);
        match step {
            ReadStep::Done(n) => return Ok((out, n)),
            ReadStep::Fail(e) => return Err(e),
            ReadStep::Fetch { file_offset, len, .. } => {
                let fetched = &file[file_offset as usize..(file_offset + len) as usize];
                c = rvz.read_advance(&c, &step, fetched, &mut out)?;
            }
        }
    }
}

#[test]
fn rvz_read_spans_chunks() {
    let (rvz, file) = sample_rvz();
    let (out, n) = read_all(&rvz, &file, 0x1E, 4).unwrap();
    assert_eq!(n, 4);
    assert_eq!(out, vec![0x1F, 0x20, 0, 0]);
    let (out, n) = read_all(&rvz, &file, 0, 0x40).unwrap();
    assert_eq!(n, 0x40);
    assert_eq!(&out[..0x20], &(1..=0x20).collect::<Vec<u8>>()[..]);
    assert!(out[0x20..].iter().all(|b| *b == 0));
}

#[test]
fn rvz_read_stops_past_the_disk() {
    let (rvz, file) = sample_rvz();
    let (out, n) = read_all(&rvz, &file, 0x3E, 4).unwrap();
    assert_eq!(n, 2);
    assert_eq!(out, vec![0, 0, 0xFF, 0xFF]);
}

#[test]
fn rvz_find_disk_section() {
    let (rvz, _) = sample_rvz();
    assert!(rvz.find_disk_section(0x3F).is_some());
    assert!(rvz.find_disk_section(0x40).is_none());
    let found = rvz.find_file_section(rvz.disk_sections()[0], 0x25).unwrap();
    assert_eq!(found.disk_start, 0x20);
    assert_eq!(found.disk_len, 0x20);
}

#[test]
fn rvz_new_refuses_other_compressions() {
    let header = RvzHeader::parse(&rvz_header_bytes()).unwrap();
    let disk = DiskHeader::parse(&disk_header_bytes(2, 0x20)).unwrap();
    assert_eq!(Rvz::new(header, disk, &[], &[]).unwrap_err(), RvzError::UnsupportedCompression(Compression::Bzip2));
}

#[test]
fn rvz_reader_seeks() {
    let (rvz, _) = sample_rvz();
    let mut r = RvzReader::new(rvz);
    assert_eq!(r.seek(SeekTarget::Start(0x10)), 0x10);
    assert_eq!(r.seek(SeekTarget::Current(-0x20)), 0);
    assert_eq!(r.seek(SeekTarget::Current(5)), 5);
    assert_eq!(r.seek(SeekTarget::End(-0x78)), 0x1234_5678 - 0x78);
    assert_eq!(r.seek(SeekTarget::End(1)), 0x1234_5679);
    r.advance(3);
    assert_eq!(r.position(), 0x1234_567C);
}

#[test]
fn sha1_hash_shows_in_upper_case_hex() {
    let mut bytes = [0u8; 20];
    bytes[0] = 0x0A;
    bytes[1] = 0xF1;
    bytes[19] = 0x9C;
    let text = String::from_utf8(Sha1Hash(bytes).to_hex()).unwrap();
    assert_eq!(text, "0AF100000000000000000000000000000000009C");
}

use lazuli::dol::{Dol, DolError, Executable, Header, OpenError, SectionInfo, HEADER_SIZE};
use lazuli::from_elf::{dol_from_segments, elf_to_dol, ElfSegment, ElfToDolError, SegmentKind, kind_of};

fn sample_header() -> Header {
    let mut h = Header::default();
    h.text_offsets[0] = 0x100;
    h.text_targets[0] = 0x8000_3100;
    h.text_sizes[0] = 8;
    h.data_offsets[2] = 0x108;
    h.data_targets[2] = 0x8000_4000;
    h.data_sizes[2] = 4;
    h.bss_target = 0x8000_5000;
    h.bss_size = 0x20;
    h.entry = 0x8000_3100;
    h
}

fn sample_dol() -> Dol {
    Dol { header: sample_header(), body: vec![1, 2, 3, 4, 5, 6, 7, 8, 9, 10, 11, 12] }
}

#[test]
fn header_sections_skip_empty_slots() {
    let h = sample_header();
    let text = h.text_sections();
    assert_eq!(text.len(), 1);
    assert_eq!(text[0], SectionInfo { offset: 0x100, target: 0x8000_3100, size: 8 });
    let data = h.data_sections();
    assert_eq!(data, vec![SectionInfo { offset: 0x108, target: 0x8000_4000, size: 4 }]);
    assert_eq!(h.size(), 0x10C);
}

#[test]
fn header_size_of_empty_header_is_zero() {
    assert_eq!(Header::default().size(), 0);
}

#[test]
fn dol_sections_give_contents() {
    let d = sample_dol();
    let text = d.text_sections();
    assert_eq!(text[0].target, 0x8000_3100);
    assert_eq!(text[0].content, &[1, 2, 3, 4, 5, 6, 7, 8]);
    let data = d.data_sections();
    assert_eq!(data[0].content, &[9, 10, 11, 12]);
    assert_eq!(d.entrypoint(), 0x8000_3100);
}

#[test]
fn dol_to_bytes_layout() {
    let bytes = sample_dol().to_bytes();
    assert_eq!(bytes.len(), HEADER_SIZE + 12);
    assert_eq!(&bytes[0..4], &[0x00, 0x00, 0x01, 0x00]);
    assert_eq!(&bytes[0xE0..0xE4], &[0x80, 0x00, 0x31, 0x00]);
    assert!(bytes[0xE4..0x100].iter().all(|b| *b == 0));
    assert_eq!(&bytes[0x100..], &[1, 2, 3, 4, 5, 6, 7, 8, 9, 10, 11, 12]);
}

#[test]
fn dol_roundtrip_through_bytes() {
    let d = sample_dol();
    let bytes = d.to_bytes();
    let back = Dol::read_until_eof(&bytes).unwrap();
    assert_eq!(back.body, d.body);
    assert_eq!(back.header.text_offsets, d.header.text_offsets);
    assert_eq!(back.header.data_sizes, d.header.data_sizes);
    assert_eq!(back.header.bss_size, d.header.bss_size);
    assert_eq!(back.header.entry, d.header.entry);
    let sized = Dol::read(&bytes).unwrap();
    assert_eq!(sized.body, d.body);
}

#[test]
fn dol_read_cuts_body_at_highest_section_end() {
    let mut bytes = sample_dol().to_bytes();
    bytes.extend_from_slice(&[0xAA; 16]);
    let d = Dol::read(&bytes).unwrap();
    assert_eq!(d.body.len(), 12);
    let e = Dol::read_until_eof(&bytes).unwrap();
    assert_eq!(e.body.len(), 28);
}

#[test]
fn dol_read_errors_on_short_input() {
    assert!(matches!(Dol::read(&[0u8; 0x10]), Err(DolError::UnexpectedEnd)));
    assert!(matches!(Header::read(&[0u8; 0xE3]), Err(DolError::UnexpectedEnd)));
    let bytes = sample_dol().to_bytes();
    assert!(matches!(Dol::read(&bytes[..0x108]), Err(DolError::UnexpectedEnd)));
}

fn be16(v: &mut Vec<u8>, x: u16) {
    v.extend_from_slice(&x.to_be_bytes());
}

fn be32(v: &mut Vec<u8>, x: u32) {
    v.extend_from_slice(&x.to_be_bytes());
}

/// A big-endian 32-bit ELF file with the given program headers (type, offset, vaddr, filesz,
/// memsz, flags) followed by `payload`.
fn elf(entry: u32, phdrs: &[(u32, u32, u32, u32, u32, u32)], payload: &[u8]) -> Vec<u8> {
    let mut v = vec![0x7F, b'E', b'L', b'F', 1, 2, 1, 0, 0, 0, 0, 0, 0, 0, 0, 0];
    be16(&mut v, 2);
    be16(&mut v, 20);
    be32(&mut v, 1);
    be32(&mut v, entry);
    be32(&mut v, 52);
    be32(&mut v, 0);
    be32(&mut v, 0);
    be16(&mut v, 52);
    be16(&mut v, 32);
    be16(&mut v, phdrs.len() as u16);
    be16(&mut v, 40);
    be16(&mut v, 0);
    be16(&mut v, 0);
    for &(p_type, offset, vaddr, filesz, memsz, flags) in phdrs {
        be32(&mut v, p_type);
        be32(&mut v, offset);
        be32(&mut v, vaddr);
        be32(&mut v, vaddr);
        be32(&mut v, filesz);
        be32(&mut v, memsz);
        be32(&mut v, flags);
        be32(&mut v, 4);
    }
    v.extend_from_slice(payload);
    v
}

#[test]
fn elf_to_dol_lays_out_text_data_and_bss() {
    let data_start = 52 + 3 * 32;
    let bytes = elf(
        0x8000_3100,
        &[
            (1, data_start, 0x8000_3100, 8, 8, 5),
            (1, data_start + 8, 0x8000_4000, 4, 4, 6),
            (1, 0, 0x8000_5000, 0, 0x40, 6),
        ],
        &[1, 2, 3, 4, 5, 6, 7, 8, 9, 10, 11, 12],
    );
    let d = elf_to_dol(&bytes).unwrap();
    assert_eq!(d.header.entry, 0x8000_3100);
    assert_eq!(d.header.text_offsets[0], 0x100);
    assert_eq!(d.header.text_targets[0], 0x8000_3100);
    assert_eq!(d.header.text_sizes[0], 8);
    assert_eq!(d.header.text_offsets[1], 0);
    assert_eq!(d.header.data_offsets[0], 0x108);
    assert_eq!(d.header.data_targets[0], 0x8000_4000);
    assert_eq!(d.header.data_sizes[0], 4);
    assert_eq!(d.header.bss_target, 0x8000_5000);
    assert_eq!(d.header.bss_size, 0x40);
    assert_eq!(d.body, vec![1, 2, 3, 4, 5, 6, 7, 8, 9, 10, 11, 12]);
}

#[test]
fn elf_to_dol_refuses_garbage() {
    assert_eq!(elf_to_dol(&[0u8; 64]).unwrap_err(), ElfToDolError::Elf);
}

#[test]
fn elf_to_dol_refuses_segment_past_end() {
    let bytes = elf(0, &[(1, 52 + 32, 0x8000_0000, 100, 100, 5)], &[0; 4]);
    assert_eq!(elf_to_dol(&bytes).unwrap_err(), ElfToDolError::Elf);
}

fn seg(p_type: u32, p_offset: u64, p_vaddr: u64, p_filesz: u64, p_memsz: u64, p_flags: u32) -> ElfSegment {
    ElfSegment { p_type, p_offset, p_vaddr, p_filesz, p_memsz, p_flags }
}

#[test]
fn segments_with_two_bss_are_refused() {
    let segs = vec![seg(1, 0, 0x100, 0, 8, 6), seg(1, 0, 0x200, 0, 8, 6)];
    assert_eq!(dol_from_segments(&[], 0, &segs).unwrap_err(), ElfToDolError::MultipleBss);
}

#[test]
fn too_many_sections_are_refused() {
    let text: Vec<ElfSegment> = (0..8).map(|i| seg(1, 0, 0x1000 * i, 1, 1, 1)).collect();
    assert_eq!(dol_from_segments(&[0xAA], 0, &text).unwrap_err(), ElfToDolError::TooManyTextSections);
    let data: Vec<ElfSegment> = (0..12).map(|i| seg(1, 0, 0x1000 * i, 1, 1, 4)).collect();
    assert_eq!(dol_from_segments(&[0xAA], 0, &data).unwrap_err(), ElfToDolError::TooManyDataSections);
}

#[test]
fn segment_kinds() {
    assert_eq!(kind_of(&seg(2, 0, 0, 1, 1, 5)), SegmentKind::Skipped);
    assert_eq!(kind_of(&seg(1, 0, 0, 1, 0, 5)), SegmentKind::Skipped);
    assert_eq!(kind_of(&seg(1, 0, 0, 0, 1, 5)), SegmentKind::Bss);
    assert_eq!(kind_of(&seg(1, 0, 0, 1, 1, 1)), SegmentKind::Text);
    assert_eq!(kind_of(&seg(1, 0, 0, 1, 1, 2)), SegmentKind::Data);
    assert_eq!(kind_of(&seg(1, 0, 0, 1, 1, 0)), SegmentKind::Skipped);
}

#[test]
fn skipped_segments_leave_nothing() {
    let segs = vec![seg(4, 0, 0x100, 2, 2, 5), seg(1, 0, 0x8000_0000, 2, 2, 5)];
    let d = dol_from_segments(&[7, 8], 0x1234, &segs).unwrap();
    assert_eq!(d.body, vec![7, 8]);
    assert_eq!(d.header.text_targets[0], 0x8000_0000);
    assert_eq!(d.header.entry, 0x1234);
}

#[test]
fn executables_open_by_extension() {
    let bytes = sample_dol().to_bytes();
    match Executable::from_file(Some(b"dol"), &bytes) {
        Ok(Executable::Dol(d)) => {
            assert_eq!(d.body, sample_dol().body);
            assert_eq!(d.entrypoint(), 0x8000_3100);
        }
        other => panic!("unexpected {other:?}"),
    }
    assert!(matches!(Executable::from_file(Some(b"elf"), &bytes), Err(OpenError::UnknownFormat)));
    assert!(matches!(Executable::from_file(Some(b"DOL"), &bytes), Err(OpenError::UnknownFormat)));
    assert!(matches!(Executable::from_file(None, &bytes), Err(OpenError::UnknownFormat)));
}

#[test]
fn converted_sections_follow_segment_order() {
    let bytes: Vec<u8> = (0u8..32).collect();
    let segs = vec![
        seg(1, 0, 0x8000_3100, 4, 4, 5),
        seg(1, 4, 0x8000_0000, 8, 8, 5),
        seg(1, 12, 0x8000_4000, 2, 2, 6),
    ];
    let d = dol_from_segments(&bytes, 0x8000_0000, &segs).unwrap();
    let text = d.text_sections();
    assert_eq!(text.len(), 2);
    assert_eq!((text[0].target, text[0].content), (0x8000_3100, &bytes[0..4]));
    assert_eq!((text[1].target, text[1].content), (0x8000_0000, &bytes[4..12]));
    let data = d.data_sections();
    assert_eq!(data.len(), 1);
    assert_eq!((data[0].target, data[0].content), (0x8000_4000, &bytes[12..14]));
    assert_eq!(d.header.text_offsets[0], 0x100);
    assert_eq!(d.header.text_offsets[1], 0x104);
    assert_eq!(d.header.data_offsets[0], 0x10C);
    assert_eq!(d.body.len(), 14);
    assert_eq!(d.entrypoint(), 0x8000_0000);
}

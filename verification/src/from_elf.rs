//! Building a `.dol` executable from the loadable segments of an ELF file.
use crate::dol::{max_end, sections_upto, Dol, Header, SectionInfo, HEADER_SIZE};
use vstd::prelude::*;

verus! {

/// Program header type of a loadable segment.
pub const PT_LOAD: u32 = 1;

/// Segment flag: executable.
pub const PF_X: u32 = 1;

/// Segment flag: writable.
pub const PF_W: u32 = 2;

/// Segment flag: readable.
pub const PF_R: u32 = 4;

/// The fields of an ELF program header that the conversion reads.
#[derive(Debug, Clone, Copy, PartialEq, Eq, Structural)]
pub struct ElfSegment {
    pub p_type: u32,
    pub p_offset: u64,
    pub p_vaddr: u64,
    pub p_filesz: u64,
    pub p_memsz: u64,
    pub p_flags: u32,
}

/// Why an ELF file cannot become a .dol.
#[derive(Debug, Clone, Copy, PartialEq, Eq, Structural)]
pub enum ElfToDolError {
    /// The bytes are not an ELF file, or a segment's file range lies outside of them.
    Elf,
    /// More than one loadable segment has memory but no file contents.
    MultipleBss,
    /// More than 7 executable segments.
    TooManyTextSections,
    /// More than 11 data segments.
    TooManyDataSections,
}

#[verifier::external_type_specification]
#[verifier::external_body]
pub struct ExParseError(elf::ParseError);

/// The entry point and program headers that the `elf` crate parses out of `bytes`, or `None`
/// where it refuses them.
pub uninterp spec fn elf_program_headers(bytes: Seq<u8>) -> Option<(u64, Seq<ElfSegment>)>;

/// Calls `elf::ElfBytes::minimal_parse` on `bytes` and reads the entry point from its file
/// header and each program header of its segment table (none when there is no table).
/// Claimed: the outcome is a function of the bytes alone, named `elf_program_headers`.
#[verifier::external_body]
fn read_program_headers(bytes: &[u8]) -> (r: Result<(u64, Vec<ElfSegment>), elf::ParseError>)
    ensures
        match r {
            Ok((entry, segments)) => elf_program_headers(bytes@) == Some((entry, segments@)),
            Err(_) => elf_program_headers(bytes@) is None,
        },
{
    let file = elf::ElfBytes::<elf::endian::AnyEndian>::minimal_parse(bytes)?;
    let segments = match file.segments() {
        Some(table) => table.iter().map(|p| ElfSegment {
            p_type: p.p_type,
            p_offset: p.p_offset,
            p_vaddr: p.p_vaddr,
            p_filesz: p.p_filesz,
            p_memsz: p.p_memsz,
            p_flags: p.p_flags,
        }).collect(),
        None => Vec::new(),
    };
    Ok((file.ehdr.e_entry, segments))
}

/// What a segment becomes in the .dol.
#[derive(Debug, Clone, Copy, PartialEq, Eq, Structural)]
pub enum SegmentKind {
    /// Not loaded, or loaded with no memory, or neither executable, readable nor writable.
    Skipped,
    /// Loaded memory with no file contents.
    Bss,
    /// Executable contents.
    Text,
    /// Readable or writable contents.
    Data,
}

/// What `s` becomes in the .dol.
pub open spec fn segment_kind(s: ElfSegment) -> SegmentKind {
    if s.p_type != PT_LOAD || s.p_memsz == 0 {
        SegmentKind::Skipped
    } else if s.p_filesz == 0 {
        SegmentKind::Bss
    } else if s.p_flags & PF_X != 0 {
        SegmentKind::Text
    } else if s.p_flags & PF_R != 0 || s.p_flags & PF_W != 0 {
        SegmentKind::Data
    } else {
        SegmentKind::Skipped
    }
}

/// Classifies a segment.
pub fn kind_of(s: &ElfSegment) -> (k: SegmentKind)
    ensures
        k == segment_kind(*s),
{
    if s.p_type != PT_LOAD || s.p_memsz == 0 {
        SegmentKind::Skipped
    } else if s.p_filesz == 0 {
        SegmentKind::Bss
    } else if s.p_flags & PF_X != 0 {
        SegmentKind::Text
    } else if s.p_flags & PF_R != 0 || s.p_flags & PF_W != 0 {
        SegmentKind::Data
    } else {
        SegmentKind::Skipped
    }
}

/// Whether the file contents of `s` lie inside `bytes`.
pub open spec fn in_file(s: ElfSegment, bytes: Seq<u8>) -> bool {
    s.p_offset + s.p_filesz <= bytes.len()
}

/// The file contents of `s`.
pub open spec fn file_bytes(s: ElfSegment, bytes: Seq<u8>) -> Seq<u8> {
    bytes.subrange(s.p_offset as int, s.p_offset + s.p_filesz)
}

/// The file contents of a segment: the `p_filesz` bytes at `p_offset`, or `None` where they
/// do not lie inside `bytes`.
pub fn segment_data(bytes: &[u8], s: &ElfSegment) -> (r: Option<Vec<u8>>)
    ensures
        r is Some <==> in_file(*s, bytes@),
        r is Some ==> r->0@ == file_bytes(*s, bytes@),
{
    let len: usize = bytes.len();
    if s.p_offset > len as u64 || s.p_filesz > len as u64 - s.p_offset {
        return None;
    }
    let start = s.p_offset as usize;
    let end = start + s.p_filesz as usize;
    let mut v: Vec<u8> = Vec::new();
    let mut i: usize = start;
    while i < end
        invariant
            start <= i <= end <= bytes@.len(),
            start == s.p_offset,
            end == s.p_offset + s.p_filesz,
            v@ == bytes@.subrange(start as int, i as int),
        decreases end - i,
    {
        v.push(bytes[i]);
        proof {
            assert(v@ =~= bytes@.subrange(start as int, i as int + 1));
        }
        i += 1;
    }
    Some(v)
}

/// Loaded contents: where they go and the bytes.
pub type Part = (u64, Seq<u8>);

/// What the segments give: the text parts, the data parts and the bss (target and size), in
/// segment order.
pub type Parts = (Seq<Part>, Seq<Part>, Option<(u64, u64)>);

/// Walks the segments in order, sorting them into text, data and bss; fails at the first
/// segment that is a second bss or whose contents lie outside the file.
pub open spec fn collect_parts(segments: Seq<ElfSegment>, bytes: Seq<u8>) -> Result<Parts, ElfToDolError>
    decreases segments.len(),
{
    if segments.len() == 0 {
        Ok((seq![], seq![], None))
    } else {
        match collect_parts(segments.drop_last(), bytes) {
            Err(e) => Err(e),
            Ok(parts) => step_parts(parts, segments.last(), bytes),
        }
    }
}

/// One step of `collect_parts`: adds segment `s` to `parts`.
pub open spec fn step_parts(parts: Parts, s: ElfSegment, bytes: Seq<u8>) -> Result<Parts, ElfToDolError> {
    let (text, data, bss) = parts;
    match segment_kind(s) {
        SegmentKind::Skipped => Ok(parts),
        SegmentKind::Bss => if bss is Some {
            Err(ElfToDolError::MultipleBss)
        } else {
            Ok((text, data, Some((s.p_vaddr, s.p_memsz))))
        },
        SegmentKind::Text => if in_file(s, bytes) {
            Ok((text.push((s.p_vaddr, file_bytes(s, bytes))), data, bss))
        } else {
            Err(ElfToDolError::Elf)
        },
        SegmentKind::Data => if in_file(s, bytes) {
            Ok((text, data.push((s.p_vaddr, file_bytes(s, bytes))), bss))
        } else {
            Err(ElfToDolError::Elf)
        },
    }
}

/// The contents of `parts`, one after another.
pub open spec fn flat(parts: Seq<Part>) -> Seq<u8>
    decreases parts.len(),
{
    if parts.len() == 0 {
        seq![]
    } else {
        flat(parts.drop_last()) + parts.last().1
    }
}

/// `x` cut to its low 32 bits.
pub open spec fn low32(x: int) -> u32 {
    (x % 0x1_0000_0000) as u32
}

/// Whether the first `n` header slots place `parts` one after another from file offset
/// `base`, and the slots after them are empty.
pub open spec fn placed(parts: Seq<Part>, base: int, offsets: Seq<u32>, targets: Seq<u32>, sizes: Seq<u32>, n: int) -> bool {
    forall|i: int|
        0 <= i < n ==> if i < parts.len() {
            &&& #[trigger] offsets[i] == low32(base + flat(parts.take(i)).len())
            &&& targets[i] == parts[i].0 as u32
            &&& sizes[i] == low32(parts[i].1.len() as int)
        } else {
            &&& offsets[i] == 0
            &&& targets[i] == 0
            &&& sizes[i] == 0
        }
}

/// Whether `d` is the .dol made of `parts` with entry point `entry`.
pub open spec fn built_from(d: Dol, entry: u64, parts: Parts) -> bool {
    let (text, data, bss) = parts;
    &&& d.header.entry == entry as u32
    &&& placed(text, HEADER_SIZE as int, d.header.text_offsets@, d.header.text_targets@, d.header.text_sizes@, 7)
    &&& placed(data, HEADER_SIZE + flat(text).len(), d.header.data_offsets@, d.header.data_targets@, d.header.data_sizes@, 11)
    &&& d.header.bss_target == (match bss { Some(b) => b.0 as u32, None => 0u32 })
    &&& d.header.bss_size == (match bss { Some(b) => b.1 as u32, None => 0u32 })
    &&& d.body@ == flat(text) + flat(data)
}

/// Whether `r` is what the conversion gives for `segments` of the ELF file `bytes` with entry
/// point `entry`.
pub open spec fn converts(r: Result<Dol, ElfToDolError>, bytes: Seq<u8>, entry: u64, segments: Seq<ElfSegment>) -> bool {
    match collect_parts(segments, bytes) {
        Err(e) => r == Err::<Dol, ElfToDolError>(e),
        Ok(parts) => if parts.0.len() > 7 {
            r == Err::<Dol, ElfToDolError>(ElfToDolError::TooManyTextSections)
        } else if parts.1.len() > 11 {
            r == Err::<Dol, ElfToDolError>(ElfToDolError::TooManyDataSections)
        } else {
            r is Ok && built_from(r->Ok_0, entry, parts)
        },
    }
}

/// Once the walk has failed, it stays failed with the same error.
proof fn lemma_collect_err_stays(segments: Seq<ElfSegment>, bytes: Seq<u8>, n: int)
    requires
        0 <= n <= segments.len(),
        collect_parts(segments.take(n), bytes) is Err,
    ensures
        collect_parts(segments, bytes) == collect_parts(segments.take(n), bytes),
    decreases segments.len() - n,
{
    if n < segments.len() {
        assert(segments.take(n + 1).drop_last() =~= segments.take(n));
        lemma_collect_err_stays(segments, bytes, n + 1);
    } else {
        assert(segments.take(n) =~= segments);
    }
}

/// The views of loaded contents.
pub open spec fn parts_view(v: Seq<(u64, Vec<u8>)>) -> Seq<Part> {
    v.map_values(|p: (u64, Vec<u8>)| (p.0, p.1@))
}

/// Appends `src` to `out`.
fn append_bytes(out: &mut Vec<u8>, src: &Vec<u8>)
    ensures
        final(out)@ == old(out)@ + src@,
{
    let mut i: usize = 0;
    while i < src.len()
        invariant
            i <= src@.len(),
            out@ == old(out)@ + src@.take(i as int),
        decreases src.len() - i,
    {
        out.push(src[i]);
        proof {
            assert(src@.take(i as int + 1) =~= src@.take(i as int).push(src@[i as int]));
        }
        i += 1;
    }
    assert(src@.take(src@.len() as int) =~= src@);
}

/// The flattened contents grow by the contents of the part added.
proof fn lemma_flat_take(parts: Seq<Part>, k: int)
    requires
        0 <= k < parts.len(),
    ensures
        flat(parts.take(k + 1)) == flat(parts.take(k)) + parts[k].1,
{
    assert(parts.take(k + 1).drop_last() =~= parts.take(k));
}

/// Fills `n` header slots with `parts`, one after another from file offset `base`, appending
/// their contents to `body`.
fn place<const N: usize>(parts: &Vec<(u64, Vec<u8>)>, base: u32, body: &mut Vec<u8>) -> (r: ([u32; N], [u32; N], [u32; N], u32))
    requires
        parts@.len() <= N,
        base == low32(HEADER_SIZE + old(body)@.len()),
    ensures
        placed(parts_view(parts@), HEADER_SIZE + old(body)@.len(), r.0@, r.1@, r.2@, N as int),
        final(body)@ == old(body)@ + flat(parts_view(parts@)),
        r.3 == low32(HEADER_SIZE + final(body)@.len()),
{
    let ghost pv = parts_view(parts@);
    let ghost start = old(body)@.len();
    let mut offsets = [0u32; N];
    let mut targets = [0u32; N];
    let mut sizes = [0u32; N];
    let mut off: u32 = base;
    let mut k: usize = 0;
    while k < parts.len()
        invariant
            k <= parts@.len() <= N,
            pv == parts_view(parts@),
            offsets@.len() == N,
            targets@.len() == N,
            sizes@.len() == N,
            body@ == old(body)@ + flat(pv.take(k as int)),
            off == low32(HEADER_SIZE + start + flat(pv.take(k as int)).len()),
            start == old(body)@.len(),
            forall|i: int| 0 <= i < k ==> {
                &&& #[trigger] offsets@[i] == low32(HEADER_SIZE + start + flat(pv.take(i)).len())
                &&& targets@[i] == pv[i].0 as u32
                &&& sizes@[i] == low32(pv[i].1.len() as int)
            },
            forall|i: int| k <= i < N ==> #[trigger] offsets@[i] == 0,
            forall|i: int| k <= i < N ==> #[trigger] targets@[i] == 0,
            forall|i: int| k <= i < N ==> #[trigger] sizes@[i] == 0,
        decreases parts.len() - k,
    {
        let target = parts[k].0;
        let content = &parts[k].1;
        let size = (content.len() as u64 % 0x1_0000_0000) as u32;
        offsets[k] = off;
        targets[k] = target as u32;
        sizes[k] = size;
        append_bytes(body, content);
        proof {
            lemma_flat_take(pv, k as int);
            assert(pv[k as int].1 == content@);
            let before = HEADER_SIZE + start + flat(pv.take(k as int)).len();
            vstd::arithmetic::div_mod::lemma_add_mod_noop(before, content@.len() as int, 0x1_0000_0000);
        }
        off = off.wrapping_add(size);
        k += 1;
    }
    proof {
        assert(pv.take(parts@.len() as int) =~= pv);
    }
    (offsets, targets, sizes, off)
}

/// Builds a .dol from the program headers `segments` of the ELF file `bytes` and its entry
/// point: executable segments become text sections, readable or writable ones data sections,
/// each laid out after the previous one, and a segment with memory but no file contents the
/// bss.
pub fn dol_from_segments(bytes: &[u8], entry: u64, segments: &Vec<ElfSegment>) -> (r: Result<Dol, ElfToDolError>)
    ensures
        converts(r, bytes@, entry, segments@),
{
    let mut text: Vec<(u64, Vec<u8>)> = Vec::new();
    let mut data: Vec<(u64, Vec<u8>)> = Vec::new();
    let mut bss: Option<(u64, u64)> = None;
    let mut i: usize = 0;
    proof {
        assert(segments@.take(0) =~= Seq::<ElfSegment>::empty());
        assert(parts_view(text@) =~= Seq::<Part>::empty());
        assert(parts_view(data@) =~= Seq::<Part>::empty());
    }
    while i < segments.len()
        invariant
            i <= segments@.len(),
            collect_parts(segments@.take(i as int), bytes@) == Ok::<Parts, ElfToDolError>(
                (parts_view(text@), parts_view(data@), bss),
            ),
        decreases segments.len() - i,
    {
        let s = segments[i];
        proof {
            assert(segments@.take(i as int + 1).drop_last() =~= segments@.take(i as int));
            assert(segments@.take(i as int + 1).last() == s);
        }
        let ghost before_text = text@;
        let ghost before_data = data@;
        match kind_of(&s) {
            SegmentKind::Skipped => {},
            SegmentKind::Bss => {
                if bss.is_some() {
                    proof {
                        lemma_collect_err_stays(segments@, bytes@, i as int + 1);
                    }
                    return Err(ElfToDolError::MultipleBss);
                }
                bss = Some((s.p_vaddr, s.p_memsz));
            },
            SegmentKind::Text => {
                match segment_data(bytes, &s) {
                    Some(content) => {
                        text.push((s.p_vaddr, content));
                        proof {
                            assert(parts_view(text@) =~= parts_view(before_text).push((s.p_vaddr, file_bytes(s, bytes@))));
                        }
                    },
                    None => {
                        proof {
                            lemma_collect_err_stays(segments@, bytes@, i as int + 1);
                        }
                        return Err(ElfToDolError::Elf);
                    },
                }
            },
            SegmentKind::Data => {
                match segment_data(bytes, &s) {
                    Some(content) => {
                        data.push((s.p_vaddr, content));
                        proof {
                            assert(parts_view(data@) =~= parts_view(before_data).push((s.p_vaddr, file_bytes(s, bytes@))));
                        }
                    },
                    None => {
                        proof {
                            lemma_collect_err_stays(segments@, bytes@, i as int + 1);
                        }
                        return Err(ElfToDolError::Elf);
                    },
                }
            },
        }
        i += 1;
    }
    proof {
        assert(segments@.take(segments@.len() as int) =~= segments@);
    }
    if text.len() > 7 {
        return Err(ElfToDolError::TooManyTextSections);
    }
    if data.len() > 11 {
        return Err(ElfToDolError::TooManyDataSections);
    }
    let mut body: Vec<u8> = Vec::new();
    let (text_offsets, text_targets, text_sizes, base) = place::<7>(&text, 0x100, &mut body);
    assert(body@ =~= flat(parts_view(text@)));
    let (data_offsets, data_targets, data_sizes, _end) = place::<11>(&data, base, &mut body);
    let (bss_target, bss_size) = match bss {
        Some((target, size)) => (target as u32, size as u32),
        None => (0u32, 0u32),
    };
    let header = Header {
        text_offsets,
        data_offsets,
        text_targets,
        data_targets,
        text_sizes,
        data_sizes,
        bss_target,
        bss_size,
        entry: entry as u32,
    };
    Ok(Dol { header, body })
}

/// Converts the ELF file `bytes` into a .dol: its program headers are read with the `elf`
/// crate and laid out by `dol_from_segments`.
pub fn elf_to_dol(bytes: &[u8]) -> (r: Result<Dol, ElfToDolError>)
    ensures
        match elf_program_headers(bytes@) {
            None => r == Err::<Dol, ElfToDolError>(ElfToDolError::Elf),
            Some((entry, segments)) => converts(r, bytes@, entry, segments),
        },
{
    match read_program_headers(bytes) {
        Ok((entry, segments)) => dol_from_segments(bytes, entry, &segments),
        Err(_) => Err(ElfToDolError::Elf),
    }
}

} // verus!

verus! {

/// The contents of the first `k` parts come first in the contents of all of them, and part
/// `k` follows right after.
proof fn lemma_flat_prefix(parts: Seq<Part>, k: int)
    requires
        0 <= k <= parts.len(),
    ensures
        flat(parts.take(k)).len() <= flat(parts).len(),
        flat(parts).subrange(0, flat(parts.take(k)).len() as int) == flat(parts.take(k)),
        k < parts.len() ==> flat(parts.take(k)).len() + parts[k].1.len() <= flat(parts).len(),
        k < parts.len() ==> flat(parts).subrange(
            flat(parts.take(k)).len() as int,
            (flat(parts.take(k)).len() + parts[k].1.len()) as int,
        ) == parts[k].1,
    decreases parts.len(),
{
    if parts.len() > 0 {
        let rest = parts.drop_last();
        let f = flat(parts);
        assert(f == flat(rest) + parts.last().1);
        if k < parts.len() {
            assert(parts.take(k) =~= rest.take(k));
            lemma_flat_prefix(rest, k);
            if k == parts.len() - 1 {
                assert(rest.take(k) =~= rest);
                assert(f.subrange(flat(rest).len() as int, f.len() as int) =~= parts[k].1);
            } else {
                assert(rest[k] == parts[k]);
                let l = flat(rest.take(k)).len() as int;
                assert(f.subrange(l, l + parts[k].1.len()) =~= flat(rest).subrange(l, l + parts[k].1.len()));
            }
            assert(f.subrange(0, flat(parts.take(k)).len() as int) =~= flat(rest).subrange(0, flat(rest.take(k)).len() as int));
        } else {
            assert(parts.take(k) =~= parts);
            assert(f.subrange(0, f.len() as int) =~= f);
        }
    } else {
        assert(parts.take(k) =~= parts);
    }
}

/// The sections that slots placed from `base` give: one per part, in order, each at `base`
/// plus the length of the parts before it.
proof fn lemma_placed_sections(parts: Seq<Part>, base: int, offsets: Seq<u32>, targets: Seq<u32>, sizes: Seq<u32>, slots: int, n: int)
    requires
        placed(parts, base, offsets, targets, sizes, slots),
        0 <= n <= slots,
        parts.len() <= slots,
        0 < base,
        base + flat(parts).len() <= u32::MAX,
        forall|k: int| 0 <= k < parts.len() ==> parts[k].1.len() <= u32::MAX,
    ensures
        sections_upto(offsets, targets, sizes, n) == Seq::new(
            (if n < parts.len() { n } else { parts.len() as int }) as nat,
            |k: int| SectionInfo {
                offset: (base + flat(parts.take(k)).len()) as u32,
                target: parts[k].0 as u32,
                size: parts[k].1.len() as u32,
            },
        ),
    decreases n,
{
    let expect = |m: int| Seq::new(
        (if m < parts.len() { m } else { parts.len() as int }) as nat,
        |k: int| SectionInfo {
            offset: (base + flat(parts.take(k)).len()) as u32,
            target: parts[k].0 as u32,
            size: parts[k].1.len() as u32,
        },
    );
    if n > 0 {
        lemma_placed_sections(parts, base, offsets, targets, sizes, slots, n - 1);
        let i = n - 1;
        assert(0 <= i < slots);
        if i < parts.len() {
            lemma_flat_prefix(parts, i);
            let l = base + flat(parts.take(i)).len();
            assert(offsets[i] == low32(l));
            assert(low32(l) == l);
            assert(offsets[i] != 0);
            assert(sections_upto(offsets, targets, sizes, n) =~= expect(n));
        } else {
            assert(offsets[i] == 0);
            assert(sections_upto(offsets, targets, sizes, n) =~= expect(n));
        }
    } else {
        assert(sections_upto(offsets, targets, sizes, n) =~= expect(n));
    }
}

/// A .dol built from the parts of an ELF file holds them in segment order: its text sections
/// are the text parts, its data sections the data parts, each at the file offset where the
/// contents before it end (the header first), with the part's load address and bytes; the
/// body is the text contents followed by the data contents.
pub proof fn law_dol_sections_in_segment_order(d: Dol, entry: u64, parts: Parts, k: int)
    requires
        built_from(d, entry, parts),
        parts.0.len() <= 7,
        parts.1.len() <= 11,
        HEADER_SIZE + flat(parts.0).len() + flat(parts.1).len() <= u32::MAX,
    ensures
        d.body@.len() == flat(parts.0).len() + flat(parts.1).len(),
        d.header.entry == entry as u32,
        d.header.spec_text_sections().len() == parts.0.len(),
        d.header.spec_data_sections().len() == parts.1.len(),
        0 <= k < parts.0.len() ==> {
            let s = d.header.spec_text_sections()[k];
            &&& s == (SectionInfo {
                offset: (HEADER_SIZE + flat(parts.0.take(k)).len()) as u32,
                target: parts.0[k].0 as u32,
                size: parts.0[k].1.len() as u32,
            })
            &&& d.spec_bytes(s.offset, s.size) == parts.0[k].1
        },
        0 <= k < parts.1.len() ==> {
            let s = d.header.spec_data_sections()[k];
            &&& s == (SectionInfo {
                offset: (HEADER_SIZE + flat(parts.0).len() + flat(parts.1.take(k)).len()) as u32,
                target: parts.1[k].0 as u32,
                size: parts.1[k].1.len() as u32,
            })
            &&& d.spec_bytes(s.offset, s.size) == parts.1[k].1
        },
{
    let (text, data, bss) = parts;
    let tl = flat(text).len() as int;
    assert forall|j: int| 0 <= j < text.len() implies text[j].1.len() <= u32::MAX by {
        lemma_flat_prefix(text, j);
    }
    assert forall|j: int| 0 <= j < data.len() implies data[j].1.len() <= u32::MAX by {
        lemma_flat_prefix(data, j);
    }
    lemma_placed_sections(text, HEADER_SIZE as int, d.header.text_offsets@, d.header.text_targets@, d.header.text_sizes@, 7, 7);
    lemma_placed_sections(data, HEADER_SIZE + tl, d.header.data_offsets@, d.header.data_targets@, d.header.data_sizes@, 11, 11);
    if 0 <= k < text.len() {
        lemma_flat_prefix(text, k);
        let l = flat(text.take(k)).len() as int;
        assert(d.body@.subrange(l, l + text[k].1.len()) =~= flat(text).subrange(l, l + text[k].1.len()));
    }
    if 0 <= k < data.len() {
        lemma_flat_prefix(data, k);
        let l = flat(data.take(k)).len() as int;
        assert(d.body@.subrange(tl + l, tl + l + data[k].1.len()) =~= flat(data).subrange(l, l + data[k].1.len()));
    }
}

} // verus!

verus! {

/// The contents of all parts are those of all but the last, then the last.
proof fn lemma_flat_last(parts: Seq<Part>)
    requires
        parts.len() > 0,
    ensures
        flat(parts.take(parts.len() - 1)).len() + parts.last().1.len() == flat(parts).len(),
{
    assert(parts.take(parts.len() - 1) =~= parts.drop_last());
}

/// A .dol built from ELF parts, at least one of them, is as long as its header and body: the
/// highest section end, which the header gives as the size, is the header size plus the body
/// length, and every section end fits in 32 bits.
pub proof fn law_dol_size_from_parts(d: Dol, entry: u64, parts: Parts)
    requires
        built_from(d, entry, parts),
        parts.0.len() <= 7,
        parts.1.len() <= 11,
        parts.0.len() + parts.1.len() >= 1,
        HEADER_SIZE + flat(parts.0).len() + flat(parts.1).len() <= u32::MAX,
    ensures
        d.header.ends_fit(),
        max_end(d.header.spec_sections()) == HEADER_SIZE + d.body@.len(),
{
    let (text, data, bss) = parts;
    let all = d.header.spec_sections();
    let t = text.len() as int;
    let total = HEADER_SIZE + flat(text).len() + flat(data).len();
    law_dol_sections_in_segment_order(d, entry, parts, 0);
    assert(all.len() == t + data.len());
    assert forall|k: int| 0 <= k < all.len() implies #[trigger] all[k].offset + all[k].size <= total by {
        if k < t {
            law_dol_sections_in_segment_order(d, entry, parts, k);
            lemma_flat_prefix(text, k);
            assert(all[k] == d.header.spec_text_sections()[k]);
        } else {
            law_dol_sections_in_segment_order(d, entry, parts, k - t);
            lemma_flat_prefix(data, k - t);
            assert(all[k] == d.header.spec_data_sections()[k - t]);
        }
    }
    let last = all.len() - 1;
    if data.len() > 0 {
        let j = data.len() - 1;
        law_dol_sections_in_segment_order(d, entry, parts, j);
        lemma_flat_prefix(data, j);
        lemma_flat_last(data);
        assert(all[last] == d.header.spec_data_sections()[j]);
    } else {
        let j = t - 1;
        law_dol_sections_in_segment_order(d, entry, parts, j);
        lemma_flat_prefix(text, j);
        lemma_flat_last(text);
        assert(all[last] == d.header.spec_text_sections()[j]);
    }
    assert(all[last].offset + all[last].size == total);
    crate::dol::law_max_end(all);
    assert(max_end(all) >= all[last].offset + all[last].size);
    if max_end(all) > total {
        let k = choose|k: int| 0 <= k < all.len() && max_end(all) == #[trigger] all[k].offset + all[k].size;
        assert(all[k].offset + all[k].size <= total);
    }
    assert forall|k: int| 0 <= k < all.len() implies #[trigger] all[k].offset + all[k].size <= u32::MAX by {
        assert(all[k].offset + all[k].size <= total);
    }
}

} // verus!

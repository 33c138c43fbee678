//! The first `.rvz` reader of the project, kept for its tools: the same disc format as
//! [`crate::rvz`], with the last chunk of a disk section sized from the section's length and
//! padding generated from a stream that is never refilled in its last nine words at seeding.
use crate::dol::{be_u32, read_be_u32};
use crate::rvz::{
    advance_n, byte_of, compression_of, console_of, read_be_u64, be_u64, seeded_at, spec_advance,
    refill, version_at, zstd_decoded, zstd_fits, spec_table_capacity, zeros, Compression, Console, ReadCursor, Sha1Hash, Version,
};
use vstd::prelude::*;

verus! {

/// The header of a .rvz file.
#[derive(Debug, Clone, Copy)]
pub struct HeaderInner {
    pub version: Version,
    pub compatible_version: Version,
    pub disk_size: u32,
    pub disk_sha1: Sha1Hash,
    pub iso_size: u64,
    pub rvz_size: u64,
}

/// The header of a .rvz file and its hash.
#[derive(Debug, Clone, Copy)]
pub struct Header {
    pub inner: HeaderInner,
    pub hash: Sha1Hash,
}

/// Header describing the structure of disk data.
#[derive(Debug, Clone, Copy)]
pub struct Disk {
    pub console: Option<Console>,
    pub compression: Compression,
    pub compression_level: u32,
    pub chunk_length: u32,
    /// The disc's metadata block, as stored.
    pub disk_meta: [u8; 0x80],
    pub partitions_count: u32,
    pub partitions_size: u32,
    pub partitions_offset: u64,
    pub partitions_sha1: Sha1Hash,
    pub disk_sections_count: u32,
    pub disk_sections_offset: u64,
    pub disk_sections_size: u32,
    pub file_sections_count: u32,
    pub file_sections_offset: u64,
    pub file_sections_size: u32,
    pub compressor_data_count: u8,
    pub compressor_data: [u8; 7],
}

/// A range of disk data and the run of file sections that hold it.
#[derive(Debug, Clone, Copy, PartialEq, Eq, Structural)]
pub struct DiskSection {
    pub disk_offset: u64,
    pub disk_length: u64,
    pub file_sections_index: u32,
    pub file_sections_count: u32,
}

impl DiskSection {
    /// Whether the disk offset `x` lies in this section.
    pub open spec fn spec_contains(&self, x: u64) -> bool {
        self.disk_offset <= x < self.disk_offset + self.disk_length
    }

    /// Whether this disk section contains the given disk offset.
    pub fn contains(&self, offset: u64) -> (r: bool)
        ensures
            r == self.spec_contains(offset),
    {
        self.disk_offset <= offset && offset - self.disk_offset < self.disk_length
    }
}

/// The compression and stored length of a file section.
#[derive(Debug, Clone, Copy, PartialEq, Eq, Structural)]
pub struct FileSectionFormat(pub u32);

impl FileSectionFormat {
    /// Whether the file section is compressed.
    pub fn is_compressed(&self) -> (r: bool)
        ensures
            r == (self.0 >> 31u32 == 1),
    {
        (self.0 >> 31u32) == 1
    }

    /// The stored length of the file section.
    pub fn length(&self) -> (r: u32)
        ensures
            r == self.0 & 0x7fff_ffff,
    {
        self.0 & 0x7fff_ffff
    }
}

/// A range of data in the RVZ file.
#[derive(Debug, Clone, Copy, PartialEq, Eq, Structural)]
pub struct FileSection {
    pub file_offset: u64,
    pub format: FileSectionFormat,
    pub packed_size: u32,
}

/// A descriptor for a chunk of packed data.
#[derive(Debug, Clone, Copy, PartialEq, Eq, Structural)]
pub struct PackedFormat(pub u32);

impl PackedFormat {
    /// Whether the chunk is padding.
    pub fn is_padding(&self) -> (r: bool)
        ensures
            r == (self.0 >> 31u32 == 1),
    {
        (self.0 >> 31u32) == 1
    }

    /// The length of the chunk.
    pub fn length(&self) -> (r: u32)
        ensures
            r == self.0 & 0x7fff_ffff,
    {
        self.0 & 0x7fff_ffff
    }
}

/// Reads the header at the start of a RVZ file.
pub fn parse_header(bytes: &[u8]) -> (r: Option<Header>)
    ensures
        r is Some <==> bytes@.len() >= 72 && bytes@.subrange(0, 4) == crate::rvz::rvz_magic(),
        r matches Some(h) ==> {
            &&& h.inner.version == version_at(bytes@, 4)
            &&& h.inner.compatible_version == version_at(bytes@, 8)
            &&& h.inner.disk_size == be_u32(bytes@, 12)
            &&& h.inner.disk_sha1.0@ == bytes@.subrange(16, 36)
            &&& h.inner.iso_size == be_u64(bytes@, 36)
            &&& h.inner.rvz_size == be_u64(bytes@, 44)
            &&& h.hash.0@ == bytes@.subrange(52, 72)
        },
{
    match crate::rvz::RvzHeader::parse(bytes) {
        Ok(h) => Some(Header {
            inner: HeaderInner {
                version: h.inner.version,
                compatible_version: h.inner.compatible_version,
                disk_size: h.inner.disk_header_len,
                disk_sha1: h.inner.disk_header_sha1,
                iso_size: h.inner.disk_len,
                rvz_size: h.inner.rvz_len,
            },
            hash: h.hash,
        }),
        Err(_) => None,
    }
}

/// Reads the disk header at the start of `bytes`.
pub fn parse_disk(bytes: &[u8]) -> (r: Option<Disk>)
    ensures
        r is Some <==> bytes@.len() >= 220 && compression_of(be_u32(bytes@, 4)) is Some,
        r matches Some(d) ==> {
            &&& d.console == console_of(be_u32(bytes@, 0))
            &&& compression_of(be_u32(bytes@, 4)) == Some(d.compression)
            &&& d.compression_level == be_u32(bytes@, 8)
            &&& d.chunk_length == be_u32(bytes@, 12)
            &&& d.disk_meta@ == bytes@.subrange(16, 0x90)
            &&& d.partitions_count == be_u32(bytes@, 0x90)
            &&& d.partitions_size == be_u32(bytes@, 0x94)
            &&& d.partitions_offset == be_u64(bytes@, 0x98)
            &&& d.partitions_sha1.0@ == bytes@.subrange(0xA0, 0xB4)
            &&& d.disk_sections_count == be_u32(bytes@, 0xB4)
            &&& d.disk_sections_offset == be_u64(bytes@, 0xB8)
            &&& d.disk_sections_size == be_u32(bytes@, 0xC0)
            &&& d.file_sections_count == be_u32(bytes@, 0xC4)
            &&& d.file_sections_offset == be_u64(bytes@, 0xC8)
            &&& d.file_sections_size == be_u32(bytes@, 0xD0)
            &&& d.compressor_data_count == bytes@[0xD4]
            &&& d.compressor_data@ == bytes@.subrange(0xD5, 0xDC)
        },
{
    match crate::rvz::DiskHeader::parse(bytes) {
        Ok(d) => Some(Disk {
            console: d.console,
            compression: d.compression,
            compression_level: d.compression_level,
            chunk_length: d.chunk_len,
            disk_meta: d.disk_meta,
            partitions_count: d.partitions_count,
            partitions_size: d.partitions_size,
            partitions_offset: d.partitions_offset,
            partitions_sha1: d.partitions_sha1,
            disk_sections_count: d.disk_sections_count,
            disk_sections_offset: d.disk_sections_offset,
            disk_sections_size: d.disk_sections_size,
            file_sections_count: d.file_sections_count,
            file_sections_offset: d.file_sections_offset,
            file_sections_size: d.file_sections_size,
            compressor_data_count: d.compressor_data_count,
            compressor_data: d.compressor_data,
        }),
        Err(_) => None,
    }
}

/// The generator words after seeding: the filled words up to 512, zero after.
pub open spec fn legacy_seeded(seed: Seq<u32>) -> Seq<u32> {
    Seq::new(521, |i: int| if i < 512 { seeded_at(seed, i) } else { 0u32 })
}

/// Byte `k` of the padding stream seeded with `seed`: the stream refills its words every
/// 2084 bytes, after four refills at seeding.
pub open spec fn stream_byte(seed: Seq<u32>, k: int) -> u8 {
    byte_of(advance_n(legacy_seeded(seed), (4 + k / 2084) as nat)[(k / 4) % 521], k % 4)
}

/// The `count` padding bytes for a disk section at `offset`: the stream from `offset % 0x8000`
/// on.
pub open spec fn legacy_padding(seed: Seq<u32>, count: int, offset: u32) -> Seq<u8> {
    Seq::new(count as nat, |i: int| stream_byte(seed, (offset % 0x8000) + i))
}

/// Padding for a disk section at `offset` is the padding stream from `offset % 0x8000` on: it
/// is the tail, past `offset % 0x8000` bytes, of the padding for offset 0, and fewer bytes
/// are a prefix of more.
pub proof fn law_padding_is_the_stream_tail(seed: Seq<u32>, count: nat, more: nat, offset: u32)
    requires
        count <= more,
    ensures
        legacy_padding(seed, count as int, offset)
            == legacy_padding(seed, count + offset % 0x8000, 0).skip((offset % 0x8000) as int),
        legacy_padding(seed, count as int, offset) == legacy_padding(seed, more as int, offset).take(count as int),
{
    let d = (offset % 0x8000) as int;
    assert(0u32 % 0x8000 == 0);
    assert(legacy_padding(seed, count as int, offset)
        =~= legacy_padding(seed, count + d, 0).skip(d));
    assert(legacy_padding(seed, count as int, offset) =~= legacy_padding(seed, more as int, offset).take(count as int));
}

/// One refill of the padding generator's words.
fn prgn_advance(buffer: &mut [u32; 521])
    ensures
        final(buffer)@ == spec_advance(old(buffer)@),
{
    refill(buffer);
}

/// Appends `count` padding bytes generated from `seed` for a disk section at `offset`.
fn prng(seed: &[u32; 17], count: u32, offset: u32, output: &mut Vec<u8>)
    requires
        count + offset % 0x8000 <= u32::MAX,
    ensures
        final(output)@ == old(output)@ + legacy_padding(seed@, count as int, offset),
{
    let mut buffer = [0u32; 521];
    let mut i: usize = 0;
    while i < 17
        invariant
            i <= 17,
            forall|j: int| 0 <= j < i ==> buffer@[j] == seeded_at(seed@, j),
            forall|j: int| 17 <= j < 521 ==> buffer@[j] == 0,
        decreases 17 - i,
    {
        buffer[i] = seed[i];
        i += 1;
    }
    while i < 512
        invariant
            17 <= i <= 512,
            forall|j: int| 0 <= j < i ==> buffer@[j] == seeded_at(seed@, j),
            forall|j: int| i <= j < 521 ==> buffer@[j] == 0,
        decreases 512 - i,
    {
        buffer[i] = (buffer[i - 17] << 23u32) ^ (buffer[i - 16] >> 9u32) ^ buffer[i - 1];
        i += 1;
    }
    let ghost b0 = legacy_seeded(seed@);
    assert(buffer@ =~= b0);
    let mut k: usize = 0;
    while k < 4
        invariant
            k <= 4,
            buffer@ == advance_n(b0, k as nat),
        decreases 4 - k,
    {
        prgn_advance(&mut buffer);
        k += 1;
    }
    let discard = offset % 0x8000;
    let end = count + discard;
    let ghost start = output@;
    let mut current: u32 = 0;
    while current != end
        invariant
            current <= end,
            end == count + discard,
            discard == offset % 0x8000,
            b0 == legacy_seeded(seed@),
            buffer@ == advance_n(b0, (4 + current / 2084) as nat),
            output@ == start + legacy_padding(seed@, if current > discard { current - discard } else { 0 }, offset),
        decreases end - current,
    {
        if current >= discard {
            let index = ((current / 4) % 521) as usize;
            let word = buffer[index];
            let byte_offset = current % 4;
            let value = if byte_offset == 0 {
                (word >> 24u32) as u8
            } else if byte_offset == 1 {
                (word >> 18u32) as u8
            } else if byte_offset == 2 {
                (word >> 8u32) as u8
            } else {
                word as u8
            };
            output.push(value);
            proof {
                let n = current - discard;
                assert(value == stream_byte(seed@, current as int));
                assert(output@ =~= start + legacy_padding(seed@, n + 1, offset));
            }
        }
        current += 1;
        if current % 2084 == 0 {
            prgn_advance(&mut buffer);
            proof {
                assert(current / 2084 == (current - 1) / 2084 + 1);
            }
        } else {
            proof {
                assert(current / 2084 == (current - 1) / 2084);
            }
        }
    }
}

/// Unpacks `data` from byte `pos` on, as [`crate::rvz::unpack_from`] does but with the
/// padding stream of this reader.
pub open spec fn unpack_from(data: Seq<u8>, offset: u32, pos: int) -> Option<Seq<u8>>
    decreases data.len() - pos,
{
    if pos < 0 || pos >= data.len() {
        Some(seq![])
    } else if pos + 4 > data.len() {
        None
    } else {
        let word = be_u32(data, pos);
        let n = word & 0x7fff_ffff;
        if word >> 31u32 == 1 {
            if pos + 72 > data.len() {
                None
            } else {
                match unpack_from(data, offset, pos + 72) {
                    None => None,
                    Some(rest) => Some(
                        legacy_padding(Seq::new(17, |i: int| be_u32(data, pos + 4 + 4 * i)), n as int, offset) + rest,
                    ),
                }
            }
        } else {
            if pos + 4 + n > data.len() {
                None
            } else {
                match unpack_from(data, offset, pos + 4 + n) {
                    None => None,
                    Some(rest) => Some(data.subrange(pos + 4, pos + 4 + n) + rest),
                }
            }
        }
    }
}

/// Whether `out` followed by what unpacking gives from `pos` on is the unpacking of the whole.
pub open spec fn unpack_progress(data: Seq<u8>, offset: u32, pos: int, out: Seq<u8>) -> bool {
    match unpack_from(data, offset, pos) {
        Some(rest) => unpack_from(data, offset, 0) == Some(out + rest),
        None => unpack_from(data, offset, 0) is None,
    }
}

/// Unpacks packed data of a disk section at `offset`. `None` where a chunk runs past the end.
pub fn unpack(data: &[u8], offset: u32) -> (r: Option<Vec<u8>>)
    ensures
        match unpack_from(data@, offset, 0) {
            Some(u) => r is Some && r->0@ == u,
            None => r is None,
        },
{
    let len: usize = data.len();
    let mut output: Vec<u8> = Vec::new();
    let mut pos: usize = 0;
    assert(output@ + seq![] =~= output@);
    while pos < len
        invariant
            len == data@.len(),
            pos <= len,
            unpack_progress(data@, offset, pos as int, output@),
        decreases len - pos,
    {
        if len - pos < 4 {
            return None;
        }
        let format = PackedFormat(read_be_u32(data, pos));
        let n = format.length();
        let ghost word = format.0;
        assert(word & 0x7fff_ffff <= 0x7fff_ffff) by (bit_vector);
        let ghost before = output@;
        if format.is_padding() {
            if len - pos < 72 {
                return None;
            }
            let mut seed = [0u32; 17];
            let mut i: usize = 0;
            while i < 17
                invariant
                    i <= 17,
                    pos + 72 <= len,
                    len == data@.len(),
                    forall|j: int| 0 <= j < i ==> seed@[j] == be_u32(data@, pos + 4 + 4 * j),
                decreases 17 - i,
            {
                seed[i] = read_be_u32(data, pos + 4 + 4 * i);
                i += 1;
            }
            assert(seed@ =~= Seq::new(17, |j: int| be_u32(data@, pos + 4 + 4 * j)));
            prng(&seed, n, offset, &mut output);
            proof {
                match unpack_from(data@, offset, pos + 72) {
                    Some(rest) => {
                        let made = legacy_padding(seed@, n as int, offset);
                        assert(before + made + rest =~= before + (made + rest));
                    },
                    None => {},
                }
            }
            pos = pos + 72;
        } else {
            if ((len - pos - 4) as u64) < n as u64 {
                return None;
            }
            let end = pos + 4 + n as usize;
            let mut i: usize = pos + 4;
            while i < end
                invariant
                    pos + 4 <= i <= end <= len,
                    len == data@.len(),
                    output@ == before + data@.subrange(pos + 4, i as int),
                decreases end - i,
            {
                output.push(data[i]);
                proof {
                    assert(output@ =~= before + data@.subrange(pos + 4, i + 1));
                }
                i += 1;
            }
            proof {
                match unpack_from(data@, offset, end as int) {
                    Some(rest) => {
                        assert(before + data@.subrange(pos + 4, end as int) + rest =~= before + (data@.subrange(
                            pos + 4,
                            end as int,
                        ) + rest));
                    },
                    None => {},
                }
            }
            pos = end;
        }
    }
    proof {
        assert(output@ + seq![] =~= output@);
    }
    Some(output)
}


/// Why a read of this reader stops; each stands for a failure the reader cannot go past.
#[derive(Debug, Clone, Copy, PartialEq, Eq, Structural)]
pub enum ReadFailure {
    /// A section table is cut short.
    ParsingSections,
    /// Compressed data could not be decompressed.
    Decompressing,
    /// No disk section holds the disk offset reached.
    DiskSectionNotFound(u64),
    /// No file section holds the offset reached into the disk section.
    FileSectionNotFound(u64),
    /// A file section's data does not unpack to the disk data it stands for, or its run lies
    /// outside the file section table.
    CorruptFileSection,
}

/// The disk section stored at byte `at`, as [`crate::rvz::disk_section_at`] reads it.
pub open spec fn disk_section_at(s: Seq<u8>, at: int) -> DiskSection {
    let d = crate::rvz::disk_section_at(s, at);
    DiskSection {
        disk_offset: d.disk_offset,
        disk_length: d.disk_len,
        file_sections_index: d.file_sections_index,
        file_sections_count: d.file_sections_count,
    }
}

/// The file section stored at byte `at`: its offset is stored divided by four.
pub open spec fn file_section_at(s: Seq<u8>, at: int) -> FileSection {
    FileSection {
        file_offset: (be_u32(s, at) * 4) as u64,
        format: FileSectionFormat(be_u32(s, at + 4)),
        packed_size: be_u32(s, at + 8),
    }
}

/// The first of `sections` that contains the disk offset `x`.
pub open spec fn first_containing(sections: Seq<DiskSection>, x: u64) -> Option<DiskSection>
    decreases sections.len(),
{
    if sections.len() == 0 {
        None
    } else if sections[0].spec_contains(x) {
        Some(sections[0])
    } else {
        first_containing(sections.drop_first(), x)
    }
}

/// The section `first_containing` finds holds the offset.
proof fn lemma_first_containing(sections: Seq<DiskSection>, x: u64)
    ensures
        first_containing(sections, x) matches Some(ds) ==> ds.spec_contains(x),
    decreases sections.len(),
{
    if sections.len() > 0 && !sections[0].spec_contains(x) {
        lemma_first_containing(sections.drop_first(), x);
    }
}

/// A file section found for an offset into a disk section, with the range of the disk
/// section that it holds.
#[derive(Debug, Clone, Copy, PartialEq, Eq, Structural)]
pub struct FoundFileSection {
    pub section: FileSection,
    pub computed_start: u64,
    pub computed_length: u64,
}

/// Which of a run of `count` file sections holds offset `offset` of a disk section of length
/// `total`, with chunks of length `c`: every section but the last holds a chunk, the last
/// holds what is left of `total` over whole chunks (a whole chunk where nothing is left).
/// Gives the section's place in the run, where its data starts and its length.
pub open spec fn run_position(c: int, count: int, total: int, offset: int) -> Option<(int, int, int)> {
    if count <= 0 {
        None
    } else {
        let last = if total % c == 0 { c } else { total % c };
        let k = count - 1;
        if offset < k * c {
            Some((offset / c, (offset / c) * c, c))
        } else if offset < k * c + last {
            Some((k, k * c, last))
        } else {
            None
        }
    }
}

/// A .rvz file as this reader holds it: its headers and section tables.
#[derive(Debug, Clone)]
pub struct Rvz {
    header: Header,
    disk: Disk,
    disk_sections: Vec<DiskSection>,
    file_sections: Vec<FileSection>,
}

/// What a read of this reader needs next.
#[derive(Debug, Clone, Copy, PartialEq, Eq, Structural)]
pub enum ReadStep {
    /// All bytes are read.
    Done,
    /// The read needs the `len` bytes at `file_offset` of the RVZ file (none when `len` is 0),
    /// which hold the file section `found` of `disk_section`.
    Fetch { disk_section: DiskSection, found: FoundFileSection, file_offset: u64, len: u64 },
    /// The read cannot go on.
    Fail(ReadFailure),
}

impl Rvz {
    /// The headers.
    pub closed spec fn spec_header(&self) -> Header {
        self.header
    }

    /// The disk header.
    pub closed spec fn spec_disk(&self) -> Disk {
        self.disk
    }

    /// The disk sections.
    pub closed spec fn spec_disk_sections(&self) -> Seq<DiskSection> {
        self.disk_sections@
    }

    /// The file sections.
    pub closed spec fn spec_file_sections(&self) -> Seq<FileSection> {
        self.file_sections@
    }

    /// Builds a reader from the headers and the zstd-compressed section tables. `None` where a
    /// table does not decompress or is cut short.
    pub fn new(header: Header, disk: Disk, disk_section_bytes: &[u8], file_section_bytes: &[u8]) -> (r: Result<Rvz, ReadFailure>)
        requires
            disk.compression == Compression::Zstd,
            spec_table_capacity(disk.disk_sections_count, 24) <= isize::MAX,
            spec_table_capacity(disk.file_sections_count, 16) <= isize::MAX,
        ensures
            match r {
                Ok(rvz) => {
                    let ds = zstd_decoded(disk_section_bytes@);
                    let fs = zstd_decoded(file_section_bytes@);
                    &&& zstd_fits(disk_section_bytes@, spec_table_capacity(disk.disk_sections_count, 24) as int)
                    &&& zstd_fits(file_section_bytes@, spec_table_capacity(disk.file_sections_count, 16) as int)
                    &&& rvz.spec_header() == header
                    &&& rvz.spec_disk() == disk
                    &&& ds.len() >= 24 * disk.disk_sections_count
                    &&& rvz.spec_disk_sections() == Seq::new(disk.disk_sections_count as nat, |i: int| disk_section_at(ds, 24 * i))
                    &&& fs.len() >= 12 * disk.file_sections_count
                    &&& rvz.spec_file_sections() == Seq::new(disk.file_sections_count as nat, |i: int| file_section_at(fs, 12 * i))
                },
                Err(e) => {
                    let disk_fits = zstd_fits(disk_section_bytes@, spec_table_capacity(disk.disk_sections_count, 24) as int);
                    let disk_long = zstd_decoded(disk_section_bytes@).len() >= 24 * disk.disk_sections_count;
                    let file_fits = zstd_fits(file_section_bytes@, spec_table_capacity(disk.file_sections_count, 16) as int);
                    ||| (e == ReadFailure::Decompressing && (!disk_fits || (disk_long && !file_fits)))
                    ||| (e == ReadFailure::ParsingSections && disk_fits && (!disk_long
                        || (file_fits && zstd_decoded(file_section_bytes@).len() < 12 * disk.file_sections_count)))
                },
            },
    {
        let dcount = disk.disk_sections_count as usize;
        let dbytes = match crate::rvz::zstd_decompress_table(disk_section_bytes, disk.disk_sections_count, 24) {
            Some(d) => d,
            None => return Err(ReadFailure::Decompressing),
        };
        if dbytes.len() / 24 < dcount {
            return Err(ReadFailure::ParsingSections);
        }
        let fcount = disk.file_sections_count as usize;
        let fbytes = match crate::rvz::zstd_decompress_table(file_section_bytes, disk.file_sections_count, 16) {
            Some(d) => d,
            None => return Err(ReadFailure::Decompressing),
        };
        if fbytes.len() / 12 < fcount {
            return Err(ReadFailure::ParsingSections);
        }
        let dlen = dbytes.len();
        let mut disk_sections: Vec<DiskSection> = Vec::new();
        let mut i: usize = 0;
        while i < dcount
            invariant
                i <= dcount,
                dcount * 24 <= dlen,
                dlen == dbytes@.len(),
                disk_sections@ == Seq::new(i as nat, |j: int| disk_section_at(dbytes@, 24 * j)),
            decreases dcount - i,
        {
            let d = crate::rvz::DiskSection::parse(dbytes.as_slice(), 24 * i);
            disk_sections.push(DiskSection {
                disk_offset: d.disk_offset,
                disk_length: d.disk_len,
                file_sections_index: d.file_sections_index,
                file_sections_count: d.file_sections_count,
            });
            proof {
                assert(disk_sections@ =~= Seq::new((i + 1) as nat, |j: int| disk_section_at(dbytes@, 24 * j)));
            }
            i += 1;
        }
        let flen = fbytes.len();
        let mut file_sections: Vec<FileSection> = Vec::new();
        let mut i: usize = 0;
        while i < fcount
            invariant
                i <= fcount,
                fcount * 12 <= flen,
                flen == fbytes@.len(),
                file_sections@ == Seq::new(i as nat, |j: int| file_section_at(fbytes@, 12 * j)),
            decreases fcount - i,
        {
            let f = crate::rvz::FileSection::parse(fbytes.as_slice(), 12 * i);
            file_sections.push(FileSection {
                file_offset: f.file_offset,
                format: FileSectionFormat(f.compression.0),
                packed_size: f.packing.0,
            });
            proof {
                assert(file_sections@ =~= Seq::new((i + 1) as nat, |j: int| file_section_at(fbytes@, 12 * j)));
            }
            i += 1;
        }
        Ok(Rvz { header, disk, disk_sections, file_sections })
    }

    /// The headers.
    pub fn header(&self) -> (r: &Header)
        ensures
            *r == self.spec_header(),
    {
        &self.header
    }

    /// The disk header.
    pub fn disk(&self) -> (r: &Disk)
        ensures
            *r == self.spec_disk(),
    {
        &self.disk
    }

    /// The disk sections.
    pub fn disk_sections(&self) -> (r: &[DiskSection])
        ensures
            r@ == self.spec_disk_sections(),
    {
        self.disk_sections.as_slice()
    }

    /// The file sections.
    pub fn file_sections(&self) -> (r: &[FileSection])
        ensures
            r@ == self.spec_file_sections(),
    {
        self.file_sections.as_slice()
    }

    /// Finds the first disk section that contains the given disk offset.
    pub fn find_disk_section(&self, offset: u64) -> (r: Option<DiskSection>)
        ensures
            r == first_containing(self.spec_disk_sections(), offset),
    {
        let mut i: usize = 0;
        assert(self.disk_sections@.skip(0) =~= self.disk_sections@);
        while i < self.disk_sections.len()
            invariant
                i <= self.disk_sections@.len(),
                first_containing(self.disk_sections@, offset) == first_containing(self.disk_sections@.skip(i as int), offset),
            decreases self.disk_sections.len() - i,
        {
            let section = self.disk_sections[i];
            proof {
                assert(self.disk_sections@.skip(i as int).drop_first() =~= self.disk_sections@.skip(i + 1));
            }
            if section.contains(offset) {
                return Some(section);
            }
            i += 1;
        }
        None
    }

    /// The file section of the run of `count` sections from `index` that holds `offset`.
    pub open spec fn spec_find_file_section(&self, index: u32, count: u32, total_length: u64, offset: u64) -> Option<FoundFileSection> {
        match run_position(self.spec_disk().chunk_length as int, count as int, total_length as int, offset as int) {
            Some((j, start, len)) => Some(FoundFileSection {
                section: self.spec_file_sections()[index + j],
                computed_start: start as u64,
                computed_length: len as u64,
            }),
            None => None,
        }
    }

    /// Finds the file section of the run of `count` sections from `index` that holds the given
    /// offset into a disk section of length `total_length`.
    pub fn find_file_section(&self, index: u32, count: u32, total_length: u64, offset: u64) -> (r: Option<FoundFileSection>)
        requires
            self.spec_disk().chunk_length != 0,
            index + count <= self.spec_file_sections().len(),
        ensures
            r == self.spec_find_file_section(index, count, total_length, offset),
    {
        let c = self.disk.chunk_length as u64;
        let ghost ci = c as int;
        let mut start: u64 = 0;
        let mut j: u32 = 0;
        let table_len: usize = self.file_sections.len();
        while j < count
            invariant
                j <= count,
                count == 0 || j < count,
                table_len == self.file_sections@.len(),
                c == self.disk.chunk_length,
                ci == c as int,
                c > 0,
                index + count <= self.file_sections@.len(),
                start == j * ci,
                start <= offset,
            decreases count - j,
        {
            let is_last = j + 1 == count;
            let length = if !is_last {
                c
            } else {
                let rest = total_length % c;
                if rest == 0 { c } else { rest }
            };
            proof {
                vstd::arithmetic::mul::lemma_mul_is_distributive_add_other_way(ci, j as int, 1);
                let k = count - 1;
                if !is_last {
                    vstd::arithmetic::mul::lemma_mul_inequality(j + 1, k as int, ci);
                }
            }
            if offset - start < length {
                proof {
                    if !is_last {
                        vstd::arithmetic::div_mod::lemma_fundamental_div_mod_converse(offset as int, ci, j as int, offset - j * ci);
                    }
                }
                return Some(FoundFileSection {
                    section: self.file_sections[index as usize + j as usize],
                    computed_start: start,
                    computed_length: length,
                });
            }
            if is_last {
                return None;
            }
            start = start + length;
            j += 1;
        }
        None
    }

    /// What a read standing at `c` needs next: nothing once all bytes are read; else the
    /// stored bytes of the file section holding the offset reached.
    pub open spec fn spec_read_step(&self, c: ReadCursor) -> ReadStep {
        if c.remaining == 0 {
            ReadStep::Done
        } else {
            match first_containing(self.spec_disk_sections(), c.current) {
                None => ReadStep::Fail(ReadFailure::DiskSectionNotFound(c.current)),
                Some(ds) => {
                    let dso = (c.current - ds.disk_offset) as u64;
                    if ds.file_sections_index + ds.file_sections_count > self.spec_file_sections().len() {
                        ReadStep::Fail(ReadFailure::CorruptFileSection)
                    } else {
                        match self.spec_find_file_section(ds.file_sections_index, ds.file_sections_count, ds.disk_length, dso) {
                            None => ReadStep::Fail(ReadFailure::FileSectionNotFound(dso)),
                            Some(found) => ReadStep::Fetch {
                                disk_section: ds,
                                found,
                                file_offset: found.section.file_offset,
                                len: (found.section.format.0 & 0x7fff_ffff) as u64,
                            },
                        }
                    }
                },
            }
        }
    }

    /// What a read standing at `c` needs next.
    pub fn read_step(&self, c: &ReadCursor) -> (r: ReadStep)
        requires
            self.spec_disk().chunk_length != 0,
            c.wf(),
        ensures
            r == self.spec_read_step(*c),
    {
        if c.remaining == 0 {
            return ReadStep::Done;
        }
        proof {
            lemma_first_containing(self.disk_sections@, c.current);
        }
        match self.find_disk_section(c.current) {
            None => ReadStep::Fail(ReadFailure::DiskSectionNotFound(c.current)),
            Some(ds) => {
                let dso = c.current - ds.disk_offset;
                if ds.file_sections_index as u64 + ds.file_sections_count as u64 > self.file_sections.len() as u64 {
                    return ReadStep::Fail(ReadFailure::CorruptFileSection);
                }
                match self.find_file_section(ds.file_sections_index, ds.file_sections_count, ds.disk_length, dso) {
                    None => ReadStep::Fail(ReadFailure::FileSectionNotFound(dso)),
                    Some(found) => ReadStep::Fetch {
                        disk_section: ds,
                        found,
                        file_offset: found.section.file_offset,
                        len: found.section.format.length() as u64,
                    },
                }
            },
        }
    }

    /// The disk data held by a file section of `ds`, from the bytes fetched for it: decompressed
    /// where compressed, then unpacked where packed; `None` where it does not unpack.
    pub open spec fn section_data(ds: DiskSection, found: FoundFileSection, fetched: Seq<u8>) -> Option<Seq<u8>> {
        let d = if found.section.format.0 >> 31u32 == 1 { zstd_decoded(fetched) } else { fetched };
        if found.section.packed_size != 0 {
            if d.len() != found.section.packed_size {
                None
            } else {
                unpack_from(d, ds.disk_offset as u32, 0)
            }
        } else {
            Some(d)
        }
    }

    /// Copies into `out` the disk data that the fetched bytes of the file section hold for the
    /// read standing at `c`, and advances the read past them.
    pub fn read_advance(&self, c: &ReadCursor, step: &ReadStep, fetched: &[u8], out: &mut [u8]) -> (r: Result<ReadCursor, ReadFailure>)
        requires
            c.wf(),
            self.spec_disk().chunk_length != 0,
            *step == self.spec_read_step(*c),
            step is Fetch,
            fetched@.len() == step->len,
            old(out)@.len() == c.len,
            step->found.section.format.0 >> 31u32 == 1 ==> step->found.computed_length as usize <= isize::MAX,
        ensures
            ({
                let ds = step->disk_section;
                let found = step->found;
                let dso = c.current - ds.disk_offset;
                let fso = dso - found.computed_start;
                let in_section = ds.disk_length - dso;
                let in_file = found.computed_length - fso;
                let limit = if in_section < in_file { in_section } else { in_file };
                let to_read = if c.remaining < limit { c.remaining as int } else { limit };
                let out_start = c.current - c.disk_offset;
                match r {
                    Ok(next) => {
                        &&& found.section.format.0 >> 31u32 == 1 ==> zstd_fits(fetched@, found.computed_length as usize as int)
                        &&& Rvz::section_data(ds, found, fetched@) matches Some(data)
                        &&& data.len() >= fso + to_read
                        &&& 0 < to_read <= c.remaining
                        &&& next == (ReadCursor { current: (c.current + to_read) as u64, remaining: (c.remaining - to_read) as u64, ..*c })
                        &&& next.wf()
                        &&& final(out)@ == old(out)@.subrange(0, out_start)
                            + data.subrange(fso, fso + to_read)
                            + old(out)@.subrange(out_start + to_read, old(out)@.len() as int)
                    },
                    Err(e) => {
                        &&& final(out)@ == old(out)@
                        &&& (e == ReadFailure::Decompressing && found.section.format.0 >> 31u32 == 1
                                && !zstd_fits(fetched@, found.computed_length as usize as int))
                            || (e == ReadFailure::CorruptFileSection
                                && (found.section.format.0 >> 31u32 == 1 ==> zstd_fits(fetched@, found.computed_length as usize as int))
                                && match Rvz::section_data(ds, found, fetched@) {
                                Some(data) => data.len() < fso + to_read,
                                None => true,
                            })
                    },
                }
            }),
    {
        let ds = match step {
            ReadStep::Fetch { disk_section, .. } => *disk_section,
            _ => return Err(ReadFailure::CorruptFileSection),
        };
        let found = match step {
            ReadStep::Fetch { found, .. } => *found,
            _ => return Err(ReadFailure::CorruptFileSection),
        };
        proof {
            lemma_first_containing(self.disk_sections@, c.current);
            let dso = c.current - ds.disk_offset;
            let ci = self.disk.chunk_length as int;
            let count = ds.file_sections_count as int;
            let k = count - 1;
            if dso < k * ci {
                lemma_chunk_bounds_legacy(dso, ci);
            }
            assert(found.computed_start <= dso < found.computed_start + found.computed_length);
        }
        let decompressed: Vec<u8> = if found.section.format.is_compressed() {
            match crate::rvz::zstd_decompress_len(fetched, found.computed_length) {
                Some(d) => d,
                None => return Err(ReadFailure::Decompressing),
            }
        } else {
            crate::rvz::copy_all(fetched)
        };
        let unpacked: Vec<u8> = if found.section.packed_size != 0 {
            if decompressed.len() as u64 != found.section.packed_size as u64 {
                return Err(ReadFailure::CorruptFileSection);
            }
            match unpack(decompressed.as_slice(), ds.disk_offset as u32) {
                Some(u) => u,
                None => return Err(ReadFailure::CorruptFileSection),
            }
        } else {
            decompressed
        };
        let dso = c.current - ds.disk_offset;
        let file_section_offset = dso - found.computed_start;
        let in_section = ds.disk_length - dso;
        let in_file = found.computed_length - file_section_offset;
        let limit = if in_section < in_file { in_section } else { in_file };
        let to_read = if c.remaining < limit { c.remaining } else { limit };
        if (unpacked.len() as u64) < file_section_offset || (unpacked.len() as u64) - file_section_offset < to_read {
            return Err(ReadFailure::CorruptFileSection);
        }
        let out_start = c.current - c.disk_offset;
        crate::rvz::copy_into(out, out_start, unpacked.as_slice(), file_section_offset, to_read);
        Ok(ReadCursor { current: c.current + to_read, remaining: c.remaining - to_read, ..*c })
    }
}

/// The chunk of length `c` that offset `x` falls in starts at most `c` before it.
proof fn lemma_chunk_bounds_legacy(x: int, c: int)
    requires
        0 <= x,
        0 < c,
    ensures
        0 <= x / c,
        0 <= (x / c) * c <= x,
        x - (x / c) * c < c,
{
    vstd::arithmetic::div_mod::lemma_fundamental_div_mod(x, c);
    vstd::arithmetic::div_mod::lemma_mod_pos_bound(x, c);
    vstd::arithmetic::mul::lemma_mul_is_commutative(c, x / c);
    vstd::arithmetic::div_mod::lemma_div_pos_is_pos(x, c);
    vstd::arithmetic::mul::lemma_mul_nonnegative(x / c, c);
}
} // verus!

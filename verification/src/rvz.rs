//! A `.rvz` file is a disc format designed to store the same data as `.iso` files in a
//! space-efficient manner: the disc is cut into disk sections, each stored as a run of file
//! sections (chunks) that may be zstd-compressed and packed with generated padding.
use crate::dol::{be_u32, read_be_u32};
use vstd::prelude::*;

verus! {

/// The big-endian 64-bit word at byte `at` of `s`.
pub open spec fn be_u64(s: Seq<u8>, at: int) -> u64 {
    (be_u32(s, at) as int * 0x1_0000_0000 + be_u32(s, at + 4) as int) as u64
}

/// Reads the big-endian 64-bit word at byte `at`.
pub fn read_be_u64(bytes: &[u8], at: usize) -> (w: u64)
    requires
        at + 8 <= bytes@.len(),
    ensures
        w == be_u64(bytes@, at as int),
{
    let len: usize = bytes.len();
    (read_be_u32(bytes, at) as u64) * 0x1_0000_0000 + read_be_u32(bytes, at + 4) as u64
}

/// The `N` bytes at byte `at`.
fn read_byte_array<const N: usize>(bytes: &[u8], at: usize) -> (r: [u8; N])
    requires
        at + N <= bytes@.len(),
    ensures
        r@ == bytes@.subrange(at as int, at + N),
{
    let mut r = [0u8; N];
    let len: usize = bytes.len();
    let mut i: usize = 0;
    while i < N
        invariant
            i <= N,
            len == bytes@.len(),
            at + N <= bytes@.len(),
            r@.len() == N,
            forall|j: int| 0 <= j < i ==> r@[j] == bytes@[at + j],
        decreases N - i,
    {
        r[i] = bytes[at + i];
        i += 1;
    }
    assert(r@ =~= bytes@.subrange(at as int, at + N));
    r
}

/// The console a disc is for.
#[derive(Debug, Clone, Copy, PartialEq, Eq, Structural)]
pub enum Console {
    GameCube,
    Wii,
}

/// A SHA1 hash.
#[derive(Debug, Clone, Copy)]
pub struct Sha1Hash(pub [u8; 20]);

/// The ASCII digit of `n` in upper-case hexadecimal.
pub open spec fn hex_digit(n: u8) -> u8 {
    if n < 10 {
        (0x30 + n) as u8
    } else {
        (0x41 + n - 10) as u8
    }
}

/// `bytes` in upper-case hexadecimal: two ASCII digits per byte, the high half first.
pub open spec fn hex_text(bytes: Seq<u8>) -> Seq<u8> {
    Seq::new(2 * bytes.len(), |i: int| hex_digit(if i % 2 == 0 { bytes[i / 2] / 16 } else { bytes[i / 2] % 16 }))
}

/// The ASCII digit of a value below 16 in upper-case hexadecimal.
fn hex_digit_of(n: u8) -> (r: u8)
    requires
        n < 16,
    ensures
        r == hex_digit(n),
{
    if n < 10 {
        0x30 + n
    } else {
        0x41 + n - 10
    }
}

impl Sha1Hash {
    /// The hash in upper-case hexadecimal, as it is shown.
    pub fn to_hex(&self) -> (r: Vec<u8>)
        ensures
            r@ == hex_text(self.0@),
    {
        let mut r: Vec<u8> = Vec::new();
        let mut i: usize = 0;
        while i < 20
            invariant
                i <= 20,
                self.0@.len() == 20,
                r@ =~= hex_text(self.0@).take(2 * i as int),
            decreases 20 - i,
        {
            let b = self.0[i];
            r.push(hex_digit_of(b / 16));
            r.push(hex_digit_of(b % 16));
            i += 1;
            assert(r@ =~= hex_text(self.0@).take(2 * i as int));
        }
        assert(r@ =~= hex_text(self.0@));
        r
    }
}

/// Version of a RVZ file.
#[derive(Debug, Clone, Copy, PartialEq, Eq, Structural)]
pub struct Version {
    pub major: u8,
    pub minor: u8,
    pub patch: u8,
    pub beta: u8,
}

/// The magic bytes a RVZ file starts with.
pub open spec fn rvz_magic() -> Seq<u8> {
    seq![0x52u8, 0x56u8, 0x5Au8, 0x01u8]
}

/// Size of the RVZ header in the file.
pub const RVZ_HEADER_LEN: usize = 72;

/// The actual header of a RVZ file.
#[derive(Debug, Clone, Copy)]
pub struct RvzHeaderInner {
    /// Version of this RVZ.
    pub version: Version,
    /// Version that supports reading this RVZ.
    pub compatible_version: Version,
    /// The length of the disk header.
    pub disk_header_len: u32,
    /// The SHA1 hash of the disk header.
    pub disk_header_sha1: Sha1Hash,
    /// The length of the disk this RVZ contains.
    pub disk_len: u64,
    /// The length of this RVZ.
    pub rvz_len: u64,
}

/// The header of a .rvz file: the actual header and its hash.
#[derive(Debug, Clone, Copy)]
pub struct RvzHeader {
    /// The actual contents of the header.
    pub inner: RvzHeaderInner,
    /// The SHA1 hash of the inner field.
    pub hash: Sha1Hash,
}

/// The version stored in the four bytes at `at`.
pub open spec fn version_at(s: Seq<u8>, at: int) -> Version {
    Version { major: s[at], minor: s[at + 1], patch: s[at + 2], beta: s[at + 3] }
}

/// The compression methods a RVZ may use.
#[derive(Debug, Clone, Copy, PartialEq, Eq, Structural)]
pub enum Compression {
    /// Data stored as is.
    Uncompressed,
    Purge,
    Bzip2,
    Lzma,
    Lzma2,
    Zstd,
}

/// The compression method numbered `n`.
pub open spec fn compression_of(n: u32) -> Option<Compression> {
    if n == 0 {
        Some(Compression::Uncompressed)
    } else if n == 1 {
        Some(Compression::Purge)
    } else if n == 2 {
        Some(Compression::Bzip2)
    } else if n == 3 {
        Some(Compression::Lzma)
    } else if n == 4 {
        Some(Compression::Lzma2)
    } else if n == 5 {
        Some(Compression::Zstd)
    } else {
        None
    }
}

impl Compression {
    /// The compression method numbered `n`, if there is one.
    pub fn from_u32(n: u32) -> (r: Option<Compression>)
        ensures
            r == compression_of(n),
    {
        if n == 0 {
            Some(Compression::Uncompressed)
        } else if n == 1 {
            Some(Compression::Purge)
        } else if n == 2 {
            Some(Compression::Bzip2)
        } else if n == 3 {
            Some(Compression::Lzma)
        } else if n == 4 {
            Some(Compression::Lzma2)
        } else if n == 5 {
            Some(Compression::Zstd)
        } else {
            None
        }
    }
}

/// The console numbered `n`: 1 for the GameCube, 2 for the Wii.
pub open spec fn console_of(n: u32) -> Option<Console> {
    if n == 1 {
        Some(Console::GameCube)
    } else if n == 2 {
        Some(Console::Wii)
    } else {
        None
    }
}

/// Size of the disk header in the file.
pub const DISK_HEADER_LEN: usize = 220;

/// Size of the disc metadata block inside the disk header.
pub const DISK_META_LEN: usize = 0x80;

/// Header describing the structure of disk data in a RVZ file.
#[derive(Debug, Clone, Copy)]
pub struct DiskHeader {
    pub console: Option<Console>,
    pub compression: Compression,
    pub compression_level: u32,
    pub chunk_len: u32,
    /// The disc's metadata block, as stored.
    pub disk_meta: [u8; 0x80],
    pub partitions_count: u32,
    pub partitions_size: u32,
    pub partitions_offset: u64,
    pub partitions_sha1: Sha1Hash,
    pub disk_sections_count: u32,
    pub disk_sections_offset: u64,
    pub disk_sections_size: u32,
    pub file_sections_count: u32,
    pub file_sections_offset: u64,
    pub file_sections_size: u32,
    pub compressor_data_count: u8,
    pub compressor_data: [u8; 7],
}

/// A disk section describes a specific range of raw (i.e. not partitioned) disk data by mapping
/// it into a sequence of file sections.
#[derive(Debug, Clone, Copy, PartialEq, Eq, Structural)]
pub struct DiskSection {
    /// The disk offset this section refers to.
    pub disk_offset: u64,
    /// The length of the disk section.
    pub disk_len: u64,
    /// The index of the starting file section sequence that contains the data of this disk
    /// section.
    pub file_sections_index: u32,
    /// The length of the file sections sequence that contains the data of this disk section.
    pub file_sections_count: u32,
}

/// Size of a stored disk section.
pub const DISK_SECTION_LEN: usize = 24;

/// The disk section stored at byte `at`: the stored offset is rounded down to a multiple of
/// 0x8000, and what was cut off is added to the length (wrapping).
pub open spec fn disk_section_at(s: Seq<u8>, at: int) -> DiskSection {
    let padded = be_u64(s, at);
    let padding = padded % 0x8000;
    DiskSection {
        disk_offset: (padded - padding) as u64,
        disk_len: be_u64(s, at + 8).wrapping_add(padding),
        file_sections_index: be_u32(s, at + 16),
        file_sections_count: be_u32(s, at + 20),
    }
}

impl DiskSection {
    /// Whether the disk offset `x` lies in this section.
    pub open spec fn spec_contains(&self, x: u64) -> bool {
        self.disk_offset <= x < self.disk_offset + self.disk_len
    }

    /// Whether this disk section contains the given offset into the disk.
    pub fn contains(&self, disk_offset: u64) -> (r: bool)
        ensures
            r == self.spec_contains(disk_offset),
    {
        self.disk_offset <= disk_offset && disk_offset - self.disk_offset < self.disk_len
    }

    /// Reads a disk section from the bytes at `at`.
    pub fn parse(bytes: &[u8], at: usize) -> (r: DiskSection)
        requires
            at + DISK_SECTION_LEN <= bytes@.len(),
        ensures
            r == disk_section_at(bytes@, at as int),
    {
        let len: usize = bytes.len();
        let padded = read_be_u64(bytes, at);
        let padding = padded % 0x8000;
        DiskSection {
            disk_offset: padded - padding,
            disk_len: read_be_u64(bytes, at + 8).wrapping_add(padding),
            file_sections_index: read_be_u32(bytes, at + 16),
            file_sections_count: read_be_u32(bytes, at + 20),
        }
    }
}

/// The format of the compression of a file section.
#[derive(Debug, Clone, Copy, PartialEq, Eq, Structural)]
pub struct CompressionFormat(pub u32);

impl CompressionFormat {
    /// Length of this file section in the RVZ.
    pub fn len(&self) -> (r: u32)
        ensures
            r == self.0 & 0x7fff_ffff,
    {
        self.0 & 0x7fff_ffff
    }

    /// Whether this file section is compressed.
    pub fn is_compressed(&self) -> (r: bool)
        ensures
            r == (self.0 >> 31u32 == 1),
    {
        (self.0 >> 31u32) == 1
    }

    /// Whether this file section is zeroed (i.e. all of it's bytes are zero).
    pub fn is_zeroed(&self) -> (r: bool)
        ensures
            r == (self.0 & 0x7fff_ffff == 0),
    {
        self.len() == 0
    }
}

/// The format of packed data in a file section.
#[derive(Debug, Clone, Copy, PartialEq, Eq, Structural)]
pub struct PackingFormat(pub u32);

impl PackingFormat {
    /// Whether the data in the file section is packed.
    pub fn is_packed(&self) -> (r: bool)
        ensures
            r == (self.0 != 0),
    {
        self.0 != 0
    }

    /// The length of the packed data.
    pub fn len(&self) -> (r: u32)
        ensures
            r == self.0,
    {
        self.0
    }
}

/// A file section describes a specific range of data in the RVZ file.
#[derive(Debug, Clone, Copy, PartialEq, Eq, Structural)]
pub struct FileSection {
    /// The file offset this section refers to.
    pub file_offset: u64,
    /// The format of the compressed data of this file section.
    pub compression: CompressionFormat,
    /// The format of the packed data of this file section.
    pub packing: PackingFormat,
}

/// Size of a stored file section.
pub const FILE_SECTION_LEN: usize = 12;

/// The file section stored at byte `at`: its offset is stored divided by four.
pub open spec fn file_section_at(s: Seq<u8>, at: int) -> FileSection {
    FileSection {
        file_offset: (be_u32(s, at) * 4) as u64,
        compression: CompressionFormat(be_u32(s, at + 4)),
        packing: PackingFormat(be_u32(s, at + 8)),
    }
}

impl FileSection {
    /// Reads a file section from the bytes at `at`.
    pub fn parse(bytes: &[u8], at: usize) -> (r: FileSection)
        requires
            at + FILE_SECTION_LEN <= bytes@.len(),
        ensures
            r == file_section_at(bytes@, at as int),
    {
        let len: usize = bytes.len();
        FileSection {
            file_offset: read_be_u32(bytes, at) as u64 * 4,
            compression: CompressionFormat(read_be_u32(bytes, at + 4)),
            packing: PackingFormat(read_be_u32(bytes, at + 8)),
        }
    }
}

/// A descriptor for a chunk of packed data.
#[derive(Debug, Clone, Copy, PartialEq, Eq, Structural)]
pub struct PackedChunk(pub u32);

impl PackedChunk {
    /// Whether the data is padding.
    pub fn is_padding(&self) -> (r: bool)
        ensures
            r == (self.0 >> 31u32 == 1),
    {
        (self.0 >> 31u32) == 1
    }

    /// The length of the chunk.
    pub fn len(&self) -> (r: u32)
        ensures
            r == self.0 & 0x7fff_ffff,
    {
        self.0 & 0x7fff_ffff
    }
}

/// Why a RVZ file cannot be read.
#[derive(Debug, Clone, Copy, PartialEq, Eq, Structural)]
pub enum RvzError {
    /// The disk uses a compression method that cannot be read.
    UnsupportedCompression(Compression),
    /// The RVZ header is cut short or lacks the magic bytes.
    ParsingRvzHeader,
    /// The disk header is cut short or names an unknown compression method.
    ParsingDiskHeader,
    /// The disk section table is cut short.
    ParsingDiskSections,
    /// The file section table is cut short.
    ParsingFileSections,
    /// Compressed data could not be decompressed.
    Decompressing,
    /// A file section's data does not unpack to the disk data it stands for.
    CorruptFileSection,
    /// No file section holds the given offset into the disk section.
    FileSectionNotFound { disk_section: DiskSection, disk_section_offset: u64 },
}

impl RvzHeader {
    /// Whether `h` is the header stored in the first `RVZ_HEADER_LEN` bytes of `s`.
    pub open spec fn stored_in(h: RvzHeader, s: Seq<u8>) -> bool {
        &&& h.inner.version == version_at(s, 4)
        &&& h.inner.compatible_version == version_at(s, 8)
        &&& h.inner.disk_header_len == be_u32(s, 12)
        &&& h.inner.disk_header_sha1.0@ == s.subrange(16, 36)
        &&& h.inner.disk_len == be_u64(s, 36)
        &&& h.inner.rvz_len == be_u64(s, 44)
        &&& h.hash.0@ == s.subrange(52, 72)
    }

    /// Reads the header at the start of a RVZ file.
    pub fn parse(bytes: &[u8]) -> (r: Result<RvzHeader, RvzError>)
        ensures
            (bytes@.len() >= RVZ_HEADER_LEN && bytes@.subrange(0, 4) == rvz_magic()) <==> r is Ok,
            r is Err ==> r == Err::<RvzHeader, RvzError>(RvzError::ParsingRvzHeader),
            r is Ok ==> RvzHeader::stored_in(r->Ok_0, bytes@),
    {
        if bytes.len() < RVZ_HEADER_LEN {
            return Err(RvzError::ParsingRvzHeader);
        }
        if !(bytes[0] == 0x52 && bytes[1] == 0x56 && bytes[2] == 0x5A && bytes[3] == 0x01) {
            proof {
                if bytes@.subrange(0, 4) == rvz_magic() {
                    assert(bytes@.subrange(0, 4)[0] == 0x52u8);
                    assert(bytes@.subrange(0, 4)[1] == 0x56u8);
                    assert(bytes@.subrange(0, 4)[2] == 0x5Au8);
                    assert(bytes@.subrange(0, 4)[3] == 0x01u8);
                }
            }
            return Err(RvzError::ParsingRvzHeader);
        }
        assert(bytes@.subrange(0, 4) =~= rvz_magic());
        let inner = RvzHeaderInner {
            version: Version { major: bytes[4], minor: bytes[5], patch: bytes[6], beta: bytes[7] },
            compatible_version: Version {
                major: bytes[8],
                minor: bytes[9],
                patch: bytes[10],
                beta: bytes[11],
            },
            disk_header_len: read_be_u32(bytes, 12),
            disk_header_sha1: Sha1Hash(read_byte_array::<20>(bytes, 16)),
            disk_len: read_be_u64(bytes, 36),
            rvz_len: read_be_u64(bytes, 44),
        };
        Ok(RvzHeader { inner, hash: Sha1Hash(read_byte_array::<20>(bytes, 52)) })
    }
}

impl DiskHeader {
    /// Whether `d` is the disk header stored in the first `DISK_HEADER_LEN` bytes of `s`.
    pub open spec fn stored_in(d: DiskHeader, s: Seq<u8>) -> bool {
        &&& d.console == console_of(be_u32(s, 0))
        &&& compression_of(be_u32(s, 4)) == Some(d.compression)
        &&& d.compression_level == be_u32(s, 8)
        &&& d.chunk_len == be_u32(s, 12)
        &&& d.disk_meta@ == s.subrange(16, 0x90)
        &&& d.partitions_count == be_u32(s, 0x90)
        &&& d.partitions_size == be_u32(s, 0x94)
        &&& d.partitions_offset == be_u64(s, 0x98)
        &&& d.partitions_sha1.0@ == s.subrange(0xA0, 0xB4)
        &&& d.disk_sections_count == be_u32(s, 0xB4)
        &&& d.disk_sections_offset == be_u64(s, 0xB8)
        &&& d.disk_sections_size == be_u32(s, 0xC0)
        &&& d.file_sections_count == be_u32(s, 0xC4)
        &&& d.file_sections_offset == be_u64(s, 0xC8)
        &&& d.file_sections_size == be_u32(s, 0xD0)
        &&& d.compressor_data_count == s[0xD4]
        &&& d.compressor_data@ == s.subrange(0xD5, 0xDC)
    }

    /// Reads the disk header at the start of `bytes`.
    pub fn parse(bytes: &[u8]) -> (r: Result<DiskHeader, RvzError>)
        ensures
            (bytes@.len() >= DISK_HEADER_LEN && compression_of(be_u32(bytes@, 4)) is Some) <==> r is Ok,
            r is Err ==> r == Err::<DiskHeader, RvzError>(RvzError::ParsingDiskHeader),
            r is Ok ==> DiskHeader::stored_in(r->Ok_0, bytes@),
    {
        if bytes.len() < DISK_HEADER_LEN {
            return Err(RvzError::ParsingDiskHeader);
        }
        let console_number = read_be_u32(bytes, 0);
        let console = if console_number == 1 {
            Some(Console::GameCube)
        } else if console_number == 2 {
            Some(Console::Wii)
        } else {
            None
        };
        let compression = match Compression::from_u32(read_be_u32(bytes, 4)) {
            Some(c) => c,
            None => return Err(RvzError::ParsingDiskHeader),
        };
        Ok(DiskHeader {
            console,
            compression,
            compression_level: read_be_u32(bytes, 8),
            chunk_len: read_be_u32(bytes, 12),
            disk_meta: read_byte_array::<0x80>(bytes, 16),
            partitions_count: read_be_u32(bytes, 0x90),
            partitions_size: read_be_u32(bytes, 0x94),
            partitions_offset: read_be_u64(bytes, 0x98),
            partitions_sha1: Sha1Hash(read_byte_array::<20>(bytes, 0xA0)),
            disk_sections_count: read_be_u32(bytes, 0xB4),
            disk_sections_offset: read_be_u64(bytes, 0xB8),
            disk_sections_size: read_be_u32(bytes, 0xC0),
            file_sections_count: read_be_u32(bytes, 0xC4),
            file_sections_offset: read_be_u64(bytes, 0xC8),
            file_sections_size: read_be_u32(bytes, 0xD0),
            compressor_data_count: bytes[0xD4],
            compressor_data: read_byte_array::<7>(bytes, 0xD5),
        })
    }
}


/// Words of generator state kept by the padding generator.
pub const PRNG_BUF_LEN: usize = 521;

/// Words of seed of the padding generator.
pub const PRNG_SEED_LEN: usize = 17;

/// Bytes the padding generator hands out between two refills of its state.
pub const PRNG_BYTES_PER_ROUND: usize = 2084;

/// Word `i` of the generator state filled from `seed`: the seed, then each word made from
/// the words 17, 16 and 1 places before it.
pub open spec fn seeded_at(seed: Seq<u32>, i: int) -> u32
    decreases i,
{
    if i < 17 {
        seed[i]
    } else {
        (seeded_at(seed, i - 17) << 23u32) ^ (seeded_at(seed, i - 16) >> 9u32) ^ seeded_at(seed, i - 1)
    }
}

/// Word `i` of the state after one refill of `b`: the first 32 words mix with the last 32,
/// then each later word with the (refilled) word 32 places before it.
pub open spec fn advanced_at(b: Seq<u32>, i: int) -> u32
    decreases i,
{
    if i < 32 {
        b[i] ^ b[i + 489]
    } else {
        b[i] ^ advanced_at(b, i - 32)
    }
}

/// The state after one refill.
pub open spec fn spec_advance(b: Seq<u32>) -> Seq<u32> {
    Seq::new(521, |i: int| advanced_at(b, i))
}

/// The state after `n` refills.
pub open spec fn advance_n(b: Seq<u32>, n: nat) -> Seq<u32>
    decreases n,
{
    if n == 0 {
        b
    } else {
        spec_advance(advance_n(b, (n - 1) as nat))
    }
}

/// Byte `k` (0 to 3) that the generator takes from word `w`.
pub open spec fn byte_of(w: u32, k: int) -> u8 {
    if k == 0 {
        (w >> 24u32) as u8
    } else if k == 1 {
        (w >> 18u32) as u8
    } else if k == 2 {
        (w >> 8u32) as u8
    } else {
        w as u8
    }
}

/// A state of the padding generator: its words and how many bytes of them it has handed out.
pub type PrngState = (Seq<u32>, int);

/// The state right after seeding: the filled words, refilled four times, none handed out.
pub open spec fn seeded_state(seed: Seq<u32>) -> PrngState {
    (advance_n(Seq::new(521, |i: int| seeded_at(seed, i)), 4), 0)
}

/// One byte from state `s`: refills first when a whole round has been handed out.
pub open spec fn spec_next(s: PrngState) -> (PrngState, u8) {
    let (b, c) = if s.1 == 2084 { (spec_advance(s.0), 0int) } else { s };
    ((b, c + 1), byte_of(b[(c / 4) % 521], c % 4))
}

/// `n` bytes from state `s`, and the state after them.
pub open spec fn next_n(s: PrngState, n: nat) -> (PrngState, Seq<u8>)
    decreases n,
{
    if n == 0 {
        (s, seq![])
    } else {
        let (s1, bytes) = next_n(s, (n - 1) as nat);
        let (s2, v) = spec_next(s1);
        (s2, bytes.push(v))
    }
}

/// The state after skipping `count` bytes from `s`: the state after handing them out.
pub open spec fn spec_skip(s: PrngState, count: nat) -> PrngState {
    next_n(s, count).0
}

/// Handing out `n > 0` bytes from a state that has handed out `c` bytes of its round
/// refills once per 2084 bytes past the first, and leaves between 1 and 2084 of the last
/// round handed out.
pub proof fn lemma_next_n_state(s: PrngState, n: nat)
    requires
        0 <= s.1 <= 2084,
        n > 0,
    ensures
        next_n(s, n).0 == (advance_n(s.0, ((s.1 + n - 1) / 2084) as nat), (s.1 + n - 1) % 2084 + 1),
    decreases n,
{
    if n > 1 {
        lemma_next_n_state(s, (n - 1) as nat);
        let t = s.1 + n - 2;
        let k = t / 2084;
        assert(t == 2084 * k + t % 2084);
        if t % 2084 == 2083 {
            assert((t + 1) / 2084 == k + 1 && (t + 1) % 2084 == 0) by {
                assert(t + 1 == 2084 * (k + 1) + 0);
            }
        } else {
            assert((t + 1) / 2084 == k && (t + 1) % 2084 == t % 2084 + 1) by {
                assert(t + 1 == 2084 * k + (t % 2084 + 1));
            }
        }
        assert(advance_n(s.0, (k + 1) as nat) == spec_advance(advance_n(s.0, k as nat)));
        assert(next_n(s, n).0 == spec_next(next_n(s, (n - 1) as nat).0).0);
    } else {
        assert(next_n(s, 0).0 == s);
        assert(next_n(s, 1).0 == spec_next(s).0);
        assert(advance_n(s.0, 1) == spec_advance(advance_n(s.0, 0)));
        assert(advance_n(s.0, 0) == s.0);
    }
}

/// Refills the generator words: the first 32 mix with the last 32, then each later word
/// with the (refilled) word 32 places before it.
pub fn refill(buffer: &mut [u32; 521])
    ensures
        final(buffer)@ == spec_advance(old(buffer)@),
{
    let ghost b = buffer@;
    let mut i: usize = 0;
    while i < 32
        invariant
            i <= 32,
            b.len() == 521,
            forall|j: int| 0 <= j < i ==> buffer@[j] == advanced_at(b, j),
            forall|j: int| i <= j < 521 ==> buffer@[j] == b[j],
        decreases 32 - i,
    {
        buffer[i] = buffer[i] ^ buffer[i + 521 - 32];
        i += 1;
    }
    while i < 521
        invariant
            32 <= i <= 521,
            b.len() == 521,
            forall|j: int| 0 <= j < i ==> buffer@[j] == advanced_at(b, j),
            forall|j: int| i <= j < 521 ==> buffer@[j] == b[j],
        decreases 521 - i,
    {
        assert(buffer@[i - 32] == advanced_at(b, i - 32));
        assert(advanced_at(b, i as int) == b[i as int] ^ advanced_at(b, i - 32));
        buffer[i] = buffer[i] ^ buffer[i - 32];
        i += 1;
    }
    assert(buffer@ =~= spec_advance(b));
}

/// Implementation of the PRNG used for generating padding data: a lagged fibonacci
/// generator with parameters f = xor, j = 32 and k = 521.
pub struct Prng {
    buffer: [u32; 521],
    current: usize,
}

impl Prng {
    /// The state of this generator.
    pub closed spec fn state(&self) -> PrngState {
        (self.buffer@, self.current as int)
    }

    /// Whether at most a round of bytes has been handed out.
    pub closed spec fn wf(&self) -> bool {
        self.current <= 2084
    }

    /// Creates a PRNG instance from the given seed data.
    pub fn from_seed(seed: &[u32; 17]) -> (p: Prng)
        ensures
            p.wf(),
            p.state() == seeded_state(seed@),
    {
        let mut buffer = [0u32; 521];
        let mut i: usize = 0;
        while i < 17
            invariant
                i <= 17,
                forall|j: int| 0 <= j < i ==> buffer@[j] == seeded_at(seed@, j),
            decreases 17 - i,
        {
            buffer[i] = seed[i];
            i += 1;
        }
        while i < 521
            invariant
                17 <= i <= 521,
                forall|j: int| 0 <= j < i ==> buffer@[j] == seeded_at(seed@, j),
            decreases 521 - i,
        {
            buffer[i] = (buffer[i - 17] << 23u32) ^ (buffer[i - 16] >> 9u32) ^ buffer[i - 1];
            i += 1;
        }
        assert(buffer@ =~= Seq::new(521, |j: int| seeded_at(seed@, j)));
        let mut prng = Prng { buffer, current: 0 };
        prng.advance();
        prng.advance();
        prng.advance();
        prng.advance();
        proof {
            let b0 = Seq::new(521, |j: int| seeded_at(seed@, j));
            reveal_with_fuel(advance_n, 5);
        }
        prng
    }

    /// Refills the generator state, generating the next 2084 bytes of data.
    pub fn advance(&mut self)
        ensures
            final(self).wf(),
            final(self).state() == (spec_advance(old(self).state().0), 0int),
    {
        refill(&mut self.buffer);
        self.current = 0;
    }

    /// Gets the next byte of PRNG data, refilling the state first if a round is used up.
    pub fn next(&mut self) -> (v: u8)
        requires
            old(self).wf(),
        ensures
            final(self).wf(),
            (final(self).state(), v) == spec_next(old(self).state()),
    {
        if self.current == 4 * PRNG_BUF_LEN {
            self.advance();
        }
        let index = (self.current / 4) % PRNG_BUF_LEN;
        let offset = self.current % 4;
        let w = self.buffer[index];
        let value = if offset == 0 {
            (w >> 24u32) as u8
        } else if offset == 1 {
            (w >> 18u32) as u8
        } else if offset == 2 {
            (w >> 8u32) as u8
        } else {
            w as u8
        };
        self.current += 1;
        value
    }

    /// Skips `count` bytes: the state afterwards is that after `count` calls of `next`.
    pub fn skip(&mut self, count: usize)
        requires
            old(self).wf(),
        ensures
            final(self).wf(),
            final(self).state() == spec_skip(old(self).state(), count as nat),
    {
        if count == 0 {
            return;
        }
        let ghost s = self.state();
        proof {
            lemma_next_n_state(s, count as nat);
        }
        let q = (count - 1) / PRNG_BYTES_PER_ROUND;
        let r = (count - 1) % PRNG_BYTES_PER_ROUND;
        let rounds = q + (self.current + r) / PRNG_BYTES_PER_ROUND;
        let rest = (self.current + r) % PRNG_BYTES_PER_ROUND;
        proof {
            let t = s.1 + count - 1;
            assert(count - 1 == 2084 * q + r);
            assert(self.current + r == 2084 * ((self.current + r) / 2084) + rest);
            assert(t == 2084 * rounds + rest);
            assert(t / 2084 == rounds && t % 2084 == rest);
        }
        let mut k: usize = 0;
        while k < rounds
            invariant
                k <= rounds,
                self.buffer@ == advance_n(s.0, k as nat),
            decreases rounds - k,
        {
            refill(&mut self.buffer);
            k += 1;
        }
        self.current = rest + 1;
    }
}

/// The `n` padding bytes that a generator seeded with `seed` gives after skipping `discard`.
pub open spec fn padding_bytes(seed: Seq<u32>, discard: int, n: nat) -> Seq<u8> {
    next_n(spec_skip(seeded_state(seed), discard as nat), n).1
}

/// Unpacks `data` from byte `pos` on: a run of chunks, each a word whose top bit marks
/// padding and whose other bits give a length, then for padding a 17-word seed and for
/// data that many bytes. `None` where a chunk runs past the end.
pub open spec fn unpack_from(data: Seq<u8>, offset: u32, pos: int) -> Option<Seq<u8>>
    decreases data.len() - pos,
{
    if pos < 0 || pos >= data.len() {
        Some(seq![])
    } else if pos + 4 > data.len() {
        None
    } else {
        let word = be_u32(data, pos);
        let n = word & 0x7fff_ffff;
        if word >> 31u32 == 1 {
            if pos + 72 > data.len() {
                None
            } else {
                match unpack_from(data, offset, pos + 72) {
                    None => None,
                    Some(rest) => Some(
                        padding_bytes(Seq::new(17, |i: int| be_u32(data, pos + 4 + 4 * i)), (offset % 0x8000) as int, n as nat)
                            + rest,
                    ),
                }
            }
        } else {
            if pos + 4 + n > data.len() {
                None
            } else {
                match unpack_from(data, offset, pos + 4 + n) {
                    None => None,
                    Some(rest) => Some(data.subrange(pos + 4, pos + 4 + n) + rest),
                }
            }
        }
    }
}

/// The unpacked form of `data`.
pub open spec fn spec_unpack(data: Seq<u8>, offset: u32) -> Option<Seq<u8>> {
    unpack_from(data, offset, 0)
}

/// Whether `out` followed by what unpacking gives from `pos` on is the unpacking of the
/// whole, failing exactly where that fails.
pub open spec fn unpack_progress(data: Seq<u8>, offset: u32, pos: int, out: Seq<u8>) -> bool {
    match unpack_from(data, offset, pos) {
        Some(rest) => spec_unpack(data, offset) == Some(out + rest),
        None => spec_unpack(data, offset) is None,
    }
}

/// Unpacks a sequence of bytes whose disk section starts at `offset`: data chunks are
/// copied, padding chunks generated. `None` where a chunk runs past the end of `data`.
pub fn unpack(data: &[u8], offset: u32) -> (r: Option<Vec<u8>>)
    ensures
        match spec_unpack(data@, offset) {
            Some(u) => r is Some && r->0@ == u,
            None => r is None,
        },
{
    let len: usize = data.len();
    let mut output: Vec<u8> = Vec::new();
    let mut pos: usize = 0;
    assert(output@ + seq![] =~= output@);
    while pos < len
        invariant
            len == data@.len(),
            pos <= len,
            unpack_progress(data@, offset, pos as int, output@),
        decreases len - pos,
    {
        if len - pos < 4 {
            return None;
        }
        let format = PackedChunk(read_be_u32(data, pos));
        let n = format.len();
        if format.is_padding() {
            if len - pos < 72 {
                return None;
            }
            let mut seed = [0u32; 17];
            let mut i: usize = 0;
            while i < 17
                invariant
                    i <= 17,
                    pos + 72 <= len,
                    len == data@.len(),
                    forall|j: int| 0 <= j < i ==> seed@[j] == be_u32(data@, pos + 4 + 4 * j),
                decreases 17 - i,
            {
                seed[i] = read_be_u32(data, pos + 4 + 4 * i);
                i += 1;
            }
            assert(seed@ =~= Seq::new(17, |j: int| be_u32(data@, pos + 4 + 4 * j)));
            let mut prng = Prng::from_seed(&seed);
            let discard = offset % 0x8000;
            prng.skip(discard as usize);
            let ghost start = prng.state();
            let ghost before = output@;
            let mut k: u32 = 0;
            while k < n
                invariant
                    k <= n,
                    prng.wf(),
                    next_n(start, k as nat) == (prng.state(), output@.subrange(before.len() as int, output@.len() as int)),
                    before == output@.subrange(0, before.len() as int),
                    before.len() <= output@.len(),
                decreases n - k,
            {
                let ghost prev = output@;
                let v = prng.next();
                output.push(v);
                proof {
                    assert(output@.subrange(before.len() as int, output@.len() as int) =~= prev.subrange(
                        before.len() as int,
                        prev.len() as int,
                    ).push(v));
                    assert(before =~= output@.subrange(0, before.len() as int));
                }
                k += 1;
            }
            proof {
                let made = output@.subrange(before.len() as int, output@.len() as int);
                assert(output@ =~= before + made);
                match unpack_from(data@, offset, pos + 72) {
                    Some(rest) => {
                        assert(before + made + rest =~= before + (made + rest));
                    },
                    None => {},
                }
            }
            pos = pos + 72;
        } else {
            if ((len - pos - 4) as u64) < n as u64 {
                return None;
            }
            let ghost before = output@;
            let end = pos + 4 + n as usize;
            let mut i: usize = pos + 4;
            while i < end
                invariant
                    pos + 4 <= i <= end <= len,
                    len == data@.len(),
                    output@ == before + data@.subrange(pos + 4, i as int),
                decreases end - i,
            {
                output.push(data[i]);
                proof {
                    assert(output@ =~= before + data@.subrange(pos + 4, i + 1));
                }
                i += 1;
            }
            proof {
                match unpack_from(data@, offset, end as int) {
                    Some(rest) => {
                        assert(before + data@.subrange(pos + 4, end as int) + rest =~= before + (data@.subrange(
                            pos + 4,
                            end as int,
                        ) + rest));
                    },
                    None => {},
                }
            }
            pos = end;
        }
    }
    proof {
        assert(output@ + seq![] =~= output@);
    }
    Some(output)
}


/// The contents of the zstd frames in `data`.
pub uninterp spec fn zstd_decoded(data: Seq<u8>) -> Seq<u8>;

/// Whether `data` is a run of well-formed zstd frames that the decoder takes.
pub uninterp spec fn zstd_accepts(data: Seq<u8>) -> bool;

/// Whether `data` decodes into at most `capacity` bytes.
pub open spec fn zstd_fits(data: Seq<u8>, capacity: int) -> bool {
    zstd_accepts(data) && zstd_decoded(data).len() <= capacity
}

/// Calls `zstd::bulk::decompress(data, capacity)`. Claimed: it succeeds exactly when `data`
/// is accepted and its frames hold at most `capacity` bytes, and then gives those contents.
/// The claim leaves out the one failure that does not depend on the arguments, the decoder
/// context failing to be allocated. The call reserves `capacity` bytes up front, which panics
/// above `isize::MAX`, so the capacity stays below that.
#[verifier::external_body]
fn zstd_decompress(data: &[u8], capacity: usize) -> (r: Option<Vec<u8>>)
    requires
        capacity <= isize::MAX,
    ensures
        r is Some <==> (zstd_accepts(data@) && zstd_decoded(data@).len() <= capacity),
        r is Some ==> r->0@ == zstd_decoded(data@),
{
    zstd::bulk::decompress(data, capacity).ok()
}

/// Room for `count` entries of `size` bytes, or as much as there can be.
pub open spec fn spec_table_capacity(count: u32, size: usize) -> usize {
    if count * size <= usize::MAX { (count * size) as usize } else { usize::MAX }
}

/// Decompresses a section table of `count` entries of `size` bytes.
pub(crate) fn zstd_decompress_table(data: &[u8], count: u32, size: usize) -> (r: Option<Vec<u8>>)
    requires
        spec_table_capacity(count, size) <= isize::MAX,
    ensures
        r is Some <==> zstd_fits(data@, spec_table_capacity(count, size) as int),
        r is Some ==> r->0@ == zstd_decoded(data@),
{
    zstd_decompress(data, table_capacity(count, size))
}

/// Decompresses a file section of `len` bytes of disk data.
pub(crate) fn zstd_decompress_len(data: &[u8], len: u64) -> (r: Option<Vec<u8>>)
    requires
        len as usize <= isize::MAX,
    ensures
        r is Some <==> zstd_fits(data@, len as usize as int),
        r is Some ==> r->0@ == zstd_decoded(data@),
{
    zstd_decompress(data, len as usize)
}

/// A copy of `src`.
pub(crate) fn copy_all(src: &[u8]) -> (v: Vec<u8>)
    ensures
        v@ == src@,
{
    let mut v: Vec<u8> = Vec::new();
    let mut i: usize = 0;
    while i < src.len()
        invariant
            i <= src@.len(),
            v@ == src@.take(i as int),
        decreases src.len() - i,
    {
        v.push(src[i]);
        proof {
            assert(v@ =~= src@.take(i + 1));
        }
        i += 1;
    }
    assert(v@ =~= src@);
    v
}

/// Copies the `n` bytes of `src` at `src_start` over the bytes of `out` at `out_start`.
pub(crate) fn copy_into(out: &mut [u8], out_start: u64, src: &[u8], src_start: u64, n: u64)
    requires
        out_start + n <= old(out)@.len(),
        src_start + n <= src@.len(),
    ensures
        final(out)@ == old(out)@.subrange(0, out_start as int) + src@.subrange(src_start as int, src_start + n)
            + old(out)@.subrange(out_start + n, old(out)@.len() as int),
{
    let out_len: usize = out.len();
    let src_len: usize = src.len();
    let ghost before = out@;
    let mut i: u64 = 0;
    while i < n
        invariant
            i <= n,
            out_len == before.len(),
            src_len == src@.len(),
            out_start + n <= before.len(),
            src_start + n <= src@.len(),
            out@.len() == before.len(),
            forall|j: int| 0 <= j < out_start ==> out@[j] == before[j],
            forall|j: int| out_start + n <= j < before.len() ==> out@[j] == before[j],
            forall|j: int| out_start <= j < out_start + i ==> #[trigger] out@[j] == src@[src_start + j - out_start],
        decreases n - i,
    {
        out[(out_start + i) as usize] = src[(src_start + i) as usize];
        i += 1;
    }
    assert(out@ =~= before.subrange(0, out_start as int) + src@.subrange(src_start as int, src_start + n)
        + before.subrange(out_start + n, before.len() as int));
}

/// The `count` disk sections stored one after another at the start of `s`.
pub open spec fn disk_sections_in(s: Seq<u8>, count: int) -> Seq<DiskSection> {
    Seq::new(count as nat, |i: int| disk_section_at(s, 24 * i))
}

/// The `count` file sections stored one after another at the start of `s`.
pub open spec fn file_sections_in(s: Seq<u8>, count: int) -> Seq<FileSection> {
    Seq::new(count as nat, |i: int| file_section_at(s, 12 * i))
}

/// Room for `count` entries of `size` bytes, or as much as there can be.
fn table_capacity(count: u32, size: usize) -> (r: usize)
    ensures
        r == spec_table_capacity(count, size),
{
    match (count as usize).checked_mul(size) {
        Some(n) => n,
        None => usize::MAX,
    }
}

/// Decodes the disk section table from its zstd-compressed bytes.
pub fn decode_disk_sections(disk: &DiskHeader, compressed: &[u8]) -> (r: Result<Vec<DiskSection>, RvzError>)
    requires
        disk.compression == Compression::Zstd,
        spec_table_capacity(disk.disk_sections_count, 24) <= isize::MAX,
    ensures
        ({
            let fits = zstd_fits(compressed@, spec_table_capacity(disk.disk_sections_count, 24) as int);
            match r {
                Ok(v) => fits && zstd_decoded(compressed@).len() >= 24 * disk.disk_sections_count
                    && v@ == disk_sections_in(zstd_decoded(compressed@), disk.disk_sections_count as int),
                Err(e) => (e == RvzError::Decompressing && !fits) || (e == RvzError::ParsingDiskSections
                    && fits && zstd_decoded(compressed@).len() < 24 * disk.disk_sections_count),
            }
        }),
{
    let capacity = table_capacity(disk.disk_sections_count, DISK_SECTION_LEN);
    let decompressed = match zstd_decompress(compressed, capacity) {
        Some(d) => d,
        None => return Err(RvzError::Decompressing),
    };
    let count = disk.disk_sections_count as usize;
    let len = decompressed.len();
    if len / DISK_SECTION_LEN < count {
        return Err(RvzError::ParsingDiskSections);
    }
    let mut v: Vec<DiskSection> = Vec::new();
    let mut i: usize = 0;
    while i < count
        invariant
            i <= count,
            count * 24 <= len,
            len == decompressed@.len(),
            v@ == disk_sections_in(decompressed@, i as int),
        decreases count - i,
    {
        v.push(DiskSection::parse(decompressed.as_slice(), DISK_SECTION_LEN * i));
        proof {
            assert(v@ =~= disk_sections_in(decompressed@, i + 1));
        }
        i += 1;
    }
    Ok(v)
}

/// Decodes the file section table from its stored bytes: zstd-compressed, or as is where the
/// disk is not compressed.
pub fn decode_file_sections(disk: &DiskHeader, stored: &[u8]) -> (r: Result<Vec<FileSection>, RvzError>)
    requires
        disk.compression == Compression::Zstd || disk.compression == Compression::Uncompressed,
        disk.compression == Compression::Zstd ==> spec_table_capacity(disk.file_sections_count, 16) <= isize::MAX,
    ensures
        ({
            let table = if disk.compression == Compression::Zstd { zstd_decoded(stored@) } else { stored@ };
            let fits = disk.compression == Compression::Zstd ==> zstd_fits(stored@, spec_table_capacity(disk.file_sections_count, 16) as int);
            match r {
                Ok(v) => fits && table.len() >= 12 * disk.file_sections_count
                    && v@ == file_sections_in(table, disk.file_sections_count as int),
                Err(e) => (e == RvzError::Decompressing && !fits)
                    || (e == RvzError::ParsingFileSections && fits && table.len() < 12 * disk.file_sections_count),
            }
        }),
{
    let table: Vec<u8> = if disk.compression == Compression::Zstd {
        let capacity = table_capacity(disk.file_sections_count, 16);
        match zstd_decompress(stored, capacity) {
            Some(d) => d,
            None => return Err(RvzError::Decompressing),
        }
    } else {
        let mut copy: Vec<u8> = Vec::new();
        let mut i: usize = 0;
        while i < stored.len()
            invariant
                i <= stored@.len(),
                copy@ == stored@.take(i as int),
            decreases stored.len() - i,
        {
            copy.push(stored[i]);
            proof {
                assert(copy@ =~= stored@.take(i + 1));
            }
            i += 1;
        }
        assert(copy@ =~= stored@);
        copy
    };
    let count = disk.file_sections_count as usize;
    let len = table.len();
    if len / FILE_SECTION_LEN < count {
        return Err(RvzError::ParsingFileSections);
    }
    let mut v: Vec<FileSection> = Vec::new();
    let mut i: usize = 0;
    while i < count
        invariant
            i <= count,
            count * 12 <= len,
            len == table@.len(),
            v@ == file_sections_in(table@, i as int),
        decreases count - i,
    {
        v.push(FileSection::parse(table.as_slice(), FILE_SECTION_LEN * i));
        proof {
            assert(v@ =~= file_sections_in(table@, i + 1));
        }
        i += 1;
    }
    Ok(v)
}

/// A file section found for an offset into a disk section, with the range of the disk
/// section that it holds.
#[derive(Debug, Clone, Copy, PartialEq, Eq, Structural)]
pub struct FoundFileSection {
    pub inner: FileSection,
    /// Offset into the disk section where the file section's data starts.
    pub disk_start: u64,
    /// Length of the disk section's data that the file section holds.
    pub disk_len: u64,
}

/// The first of `sections` that contains the disk offset `x`.
pub open spec fn first_containing(sections: Seq<DiskSection>, x: u64) -> Option<DiskSection>
    decreases sections.len(),
{
    if sections.len() == 0 {
        None
    } else if sections[0].spec_contains(x) {
        Some(sections[0])
    } else {
        first_containing(sections.drop_first(), x)
    }
}

/// The section `first_containing` finds holds the offset.
proof fn lemma_first_containing(sections: Seq<DiskSection>, x: u64)
    ensures
        first_containing(sections, x) matches Some(ds) ==> ds.spec_contains(x),
    decreases sections.len(),
{
    if sections.len() > 0 && !sections[0].spec_contains(x) {
        lemma_first_containing(sections.drop_first(), x);
    }
}

/// The chunk of length `c` that offset `x` falls in starts at most `c` before it.
proof fn lemma_chunk_bounds(x: int, c: int)
    requires
        0 <= x,
        0 < c,
    ensures
        0 <= x / c,
        0 <= (x / c) * c <= x,
        x - (x / c) * c < c,
{
    vstd::arithmetic::div_mod::lemma_fundamental_div_mod(x, c);
    vstd::arithmetic::div_mod::lemma_mod_pos_bound(x, c);
    vstd::arithmetic::mul::lemma_mul_is_commutative(c, x / c);
    vstd::arithmetic::div_mod::lemma_div_pos_is_pos(x, c);
    vstd::arithmetic::mul::lemma_mul_nonnegative(x / c, c);
}

/// A .rvz file: its headers and section tables.
#[derive(Debug, Clone)]
pub struct Rvz {
    pub rvz_header: RvzHeader,
    pub disk_header: DiskHeader,
    pub disk_sections: Vec<DiskSection>,
    pub file_sections: Vec<FileSection>,
}

/// Where a read of disk data stands: the disk offset it started at and how many bytes it
/// asked for, the disk offset it has reached and how many bytes are left.
#[derive(Debug, Clone, Copy, PartialEq, Eq, Structural)]
pub struct ReadCursor {
    pub disk_offset: u64,
    pub len: u64,
    pub current: u64,
    pub remaining: u64,
}

impl ReadCursor {
    /// Whether the cursor has read exactly the bytes between the start and where it stands.
    pub open spec fn wf(&self) -> bool {
        &&& self.disk_offset <= self.current
        &&& self.current - self.disk_offset + self.remaining == self.len
        &&& self.disk_offset + self.len <= u64::MAX
    }

    /// A read of `len` bytes from disk offset `disk_offset`, not yet begun.
    pub fn start(disk_offset: u64, len: u64) -> (c: ReadCursor)
        requires
            disk_offset + len <= u64::MAX,
        ensures
            c.wf(),
            c == (ReadCursor { disk_offset, len, current: disk_offset, remaining: len }),
    {
        ReadCursor { disk_offset, len, current: disk_offset, remaining: len }
    }
}

/// What a read needs next.
#[derive(Debug, Clone, Copy, PartialEq, Eq, Structural)]
pub enum ReadStep {
    /// The read is over, with this many bytes read.
    Done(u64),
    /// The read needs the `len` bytes at `file_offset` of the RVZ file, which hold the file
    /// section `found` of `disk_section` (none for a zeroed file section).
    Fetch { disk_section: DiskSection, found: FoundFileSection, file_offset: u64, len: u64 },
    /// The read fails.
    Fail(RvzError),
}

/// `n` zero bytes.
pub open spec fn zeros(n: nat) -> Seq<u8> {
    Seq::new(n, |i: int| 0u8)
}

impl Rvz {
    /// Builds a RVZ from its headers and the stored bytes of its section tables. This does not
    /// validate the RVZ, i.e. hashes are not computed and checked.
    pub fn new(rvz_header: RvzHeader, disk_header: DiskHeader, disk_section_bytes: &[u8], file_section_bytes: &[u8]) -> (r: Result<Rvz, RvzError>)
        requires
            disk_header.compression != Compression::Uncompressed,
            disk_header.compression == Compression::Zstd ==> {
                &&& spec_table_capacity(disk_header.disk_sections_count, 24) <= isize::MAX
                &&& spec_table_capacity(disk_header.file_sections_count, 16) <= isize::MAX
            },
        ensures
            disk_header.compression != Compression::Zstd ==> r == Err::<Rvz, RvzError>(
                RvzError::UnsupportedCompression(disk_header.compression),
            ),
            disk_header.compression == Compression::Zstd ==> match r {
                Ok(rvz) => {
                    &&& zstd_fits(disk_section_bytes@, spec_table_capacity(disk_header.disk_sections_count, 24) as int)
                    &&& zstd_fits(file_section_bytes@, spec_table_capacity(disk_header.file_sections_count, 16) as int)
                    &&& rvz.rvz_header == rvz_header
                    &&& rvz.disk_header == disk_header
                    &&& zstd_decoded(disk_section_bytes@).len() >= 24 * disk_header.disk_sections_count
                    &&& rvz.disk_sections@ == disk_sections_in(zstd_decoded(disk_section_bytes@), disk_header.disk_sections_count as int)
                    &&& zstd_decoded(file_section_bytes@).len() >= 12 * disk_header.file_sections_count
                    &&& rvz.file_sections@ == file_sections_in(zstd_decoded(file_section_bytes@), disk_header.file_sections_count as int)
                },
                Err(e) => {
                    let disk_fits = zstd_fits(disk_section_bytes@, spec_table_capacity(disk_header.disk_sections_count, 24) as int);
                    let disk_long = zstd_decoded(disk_section_bytes@).len() >= 24 * disk_header.disk_sections_count;
                    let file_fits = zstd_fits(file_section_bytes@, spec_table_capacity(disk_header.file_sections_count, 16) as int);
                    ||| (e == RvzError::Decompressing && (!disk_fits || (disk_long && !file_fits)))
                    ||| (e == RvzError::ParsingDiskSections && disk_fits && !disk_long)
                    ||| (e == RvzError::ParsingFileSections && disk_fits && disk_long && file_fits
                        && zstd_decoded(file_section_bytes@).len() < 12 * disk_header.file_sections_count)
                },
            },
    {
        if disk_header.compression != Compression::Zstd {
            return Err(RvzError::UnsupportedCompression(disk_header.compression));
        }
        let disk_sections = match decode_disk_sections(&disk_header, disk_section_bytes) {
            Ok(v) => v,
            Err(e) => return Err(e),
        };
        let file_sections = match decode_file_sections(&disk_header, file_section_bytes) {
            Ok(v) => v,
            Err(e) => return Err(e),
        };
        Ok(Rvz { rvz_header, disk_header, disk_sections, file_sections })
    }

    /// The RVZ header.
    pub fn rvz_header(&self) -> (r: &RvzHeader)
        ensures
            *r == self.rvz_header,
    {
        &self.rvz_header
    }

    /// The disk header.
    pub fn disk_header(&self) -> (r: &DiskHeader)
        ensures
            *r == self.disk_header,
    {
        &self.disk_header
    }

    /// The disk sections.
    pub fn disk_sections(&self) -> (r: &[DiskSection])
        ensures
            r@ == self.disk_sections@,
    {
        self.disk_sections.as_slice()
    }

    /// The file sections.
    pub fn file_sections(&self) -> (r: &[FileSection])
        ensures
            r@ == self.file_sections@,
    {
        self.file_sections.as_slice()
    }

    /// Finds the disk section that contains the given disk offset.
    pub fn find_disk_section(&self, disk_offset: u64) -> (r: Option<DiskSection>)
        ensures
            r == first_containing(self.disk_sections@, disk_offset),
    {
        let mut i: usize = 0;
        assert(self.disk_sections@.skip(0) =~= self.disk_sections@);
        while i < self.disk_sections.len()
            invariant
                i <= self.disk_sections@.len(),
                first_containing(self.disk_sections@, disk_offset) == first_containing(
                    self.disk_sections@.skip(i as int),
                    disk_offset,
                ),
            decreases self.disk_sections.len() - i,
        {
            let section = self.disk_sections[i];
            proof {
                assert(self.disk_sections@.skip(i as int).drop_first() =~= self.disk_sections@.skip(i + 1));
            }
            if section.contains(disk_offset) {
                return Some(section);
            }
            i += 1;
        }
        None
    }

    /// The file section holding offset `dso` of `ds`: the one numbered by which chunk of the
    /// disk section `dso` falls in, if the disk section has that many.
    pub open spec fn spec_find_file_section(&self, ds: DiskSection, dso: u64) -> Option<FoundFileSection> {
        let c = self.disk_header.chunk_len as int;
        let idx = dso as int / c;
        let start = idx * c;
        let len = if ds.disk_len - start < c { ds.disk_len - start } else { c };
        let k = ds.file_sections_index + idx;
        if idx < ds.file_sections_count && k < self.file_sections@.len() {
            Some(FoundFileSection { inner: self.file_sections@[k], disk_start: start as u64, disk_len: len as u64 })
        } else {
            None
        }
    }

    /// Finds the file section that contains the given offset into its disk section.
    pub fn find_file_section(&self, disk_section: DiskSection, disk_section_offset: u64) -> (r: Option<FoundFileSection>)
        requires
            self.disk_header.chunk_len != 0,
            disk_section_offset < disk_section.disk_len,
        ensures
            r == self.spec_find_file_section(disk_section, disk_section_offset),
    {
        let chunk_len = self.disk_header.chunk_len as u64;
        let file_section_idx = disk_section_offset / chunk_len;
        proof {
            lemma_chunk_bounds(disk_section_offset as int, chunk_len as int);
        }
        let file_section_disk_start = file_section_idx * chunk_len;
        let rest = disk_section.disk_len - file_section_disk_start;
        let file_section_disk_len = if rest < chunk_len { rest } else { chunk_len };
        if file_section_idx < disk_section.file_sections_count as u64 {
            let k = disk_section.file_sections_index as u64 + file_section_idx;
            if k < self.file_sections.len() as u64 {
                return Some(FoundFileSection {
                    inner: self.file_sections[k as usize],
                    disk_start: file_section_disk_start,
                    disk_len: file_section_disk_len,
                });
            }
        }
        None
    }

    /// What a read standing at `c` needs next: nothing once all bytes are read or no disk
    /// section holds the offset reached; else the stored bytes of the file section holding it.
    pub open spec fn spec_read_step(&self, c: ReadCursor) -> ReadStep {
        if c.remaining == 0 {
            ReadStep::Done((c.len - c.remaining) as u64)
        } else {
            match first_containing(self.disk_sections@, c.current) {
                None => ReadStep::Done((c.len - c.remaining) as u64),
                Some(ds) => {
                    let dso = (c.current - ds.disk_offset) as u64;
                    match self.spec_find_file_section(ds, dso) {
                        None => ReadStep::Fail(RvzError::FileSectionNotFound { disk_section: ds, disk_section_offset: dso }),
                        Some(found) => ReadStep::Fetch {
                            disk_section: ds,
                            found,
                            file_offset: found.inner.file_offset,
                            len: (if found.inner.compression.0 & 0x7fff_ffff == 0 { 0 } else { found.inner.compression.0 & 0x7fff_ffff }) as u64,
                        },
                    }
                },
            }
        }
    }

    /// What a read standing at `c` needs next.
    pub fn read_step(&self, c: &ReadCursor) -> (r: ReadStep)
        requires
            self.disk_header.chunk_len != 0,
            c.wf(),
        ensures
            r == self.spec_read_step(*c),
    {
        if c.remaining == 0 {
            return ReadStep::Done(c.len - c.remaining);
        }
        proof {
            lemma_first_containing(self.disk_sections@, c.current);
        }
        match self.find_disk_section(c.current) {
            None => ReadStep::Done(c.len - c.remaining),
            Some(ds) => {
                let dso = c.current - ds.disk_offset;
                match self.find_file_section(ds, dso) {
                    None => ReadStep::Fail(RvzError::FileSectionNotFound { disk_section: ds, disk_section_offset: dso }),
                    Some(found) => {
                        let compression = found.inner.compression;
                        let len: u64 = if compression.is_zeroed() { 0 } else { compression.len() as u64 };
                        ReadStep::Fetch { disk_section: ds, found, file_offset: found.inner.file_offset, len }
                    },
                }
            },
        }
    }

    /// Whether a fetched file section goes through the decompressor.
    pub open spec fn decompresses(&self, found: FoundFileSection) -> bool {
        found.inner.compression.0 & 0x7fff_ffff != 0 && found.inner.compression.0 >> 31u32 == 1
            && self.disk_header.compression == Compression::Zstd
    }

    /// The data of a file section before unpacking, from the bytes fetched for it: zeros for a
    /// zeroed section, else the fetched bytes, decompressed where they are compressed.
    pub open spec fn decompressed(&self, found: FoundFileSection, fetched: Seq<u8>) -> Seq<u8> {
        if found.inner.compression.0 & 0x7fff_ffff == 0 {
            zeros(found.disk_len as nat)
        } else if self.decompresses(found) {
            zstd_decoded(fetched)
        } else {
            fetched
        }
    }

    /// The disk data held by a file section of `ds`, from the bytes fetched for it; `None`
    /// where packed data does not unpack.
    pub open spec fn section_data(&self, ds: DiskSection, found: FoundFileSection, fetched: Seq<u8>) -> Option<Seq<u8>> {
        let d = self.decompressed(found, fetched);
        if found.inner.packing.0 != 0 {
            if d.len() != found.inner.packing.0 {
                None
            } else {
                spec_unpack(d, ds.disk_offset as u32)
            }
        } else {
            Some(d)
        }
    }

    /// Copies into `out` the disk data that the fetched bytes of the file section hold for the
    /// read standing at `c`, and advances the read past them.
    pub fn read_advance(&self, c: &ReadCursor, step: &ReadStep, fetched: &[u8], out: &mut [u8]) -> (r: Result<ReadCursor, RvzError>)
        requires
            c.wf(),
            self.disk_header.chunk_len != 0,
            *step == self.spec_read_step(*c),
            step is Fetch,
            fetched@.len() == step->len,
            old(out)@.len() == c.len,
            self.decompresses(step->found) ==> step->found.disk_len as usize <= isize::MAX,
        ensures
            ({
                let ds = step->disk_section;
                let found = step->found;
                let fso = c.current - ds.disk_offset - found.disk_start;
                let to_read = if c.remaining < found.disk_len - fso { c.remaining as int } else { found.disk_len - fso };
                let out_start = c.current - c.disk_offset;
                match r {
                    Ok(next) => {
                        &&& self.decompresses(found) ==> zstd_fits(fetched@, found.disk_len as usize as int)
                        &&& self.section_data(ds, found, fetched@) matches Some(data)
                        &&& data.len() >= fso + to_read
                        &&& 0 < to_read <= c.remaining
                        &&& next == (ReadCursor { current: (c.current + to_read) as u64, remaining: (c.remaining - to_read) as u64, ..*c })
                        &&& next.wf()
                        &&& final(out)@ == old(out)@.subrange(0, out_start)
                            + data.subrange(fso, fso + to_read)
                            + old(out)@.subrange(out_start + to_read, old(out)@.len() as int)
                    },
                    Err(e) => {
                        &&& final(out)@ == old(out)@
                        &&& (e == RvzError::Decompressing && self.decompresses(found)
                                && !zstd_fits(fetched@, found.disk_len as usize as int))
                            || (e == RvzError::CorruptFileSection
                                && (self.decompresses(found) ==> zstd_fits(fetched@, found.disk_len as usize as int))
                                && match self.section_data(ds, found, fetched@) {
                                Some(data) => data.len() < fso + to_read,
                                None => true,
                            })
                    },
                }
            }),
    {
        let ds = match step {
            ReadStep::Fetch { disk_section, .. } => *disk_section,
            _ => return Err(RvzError::CorruptFileSection),
        };
        let found = match step {
            ReadStep::Fetch { found, .. } => *found,
            _ => return Err(RvzError::CorruptFileSection),
        };
        proof {
            lemma_first_containing(self.disk_sections@, c.current);
            let dso = c.current - ds.disk_offset;
            lemma_chunk_bounds(dso, self.disk_header.chunk_len as int);
            assert(found.disk_start <= dso < found.disk_start + found.disk_len);
        }
        let compression = found.inner.compression;
        let decompressed: Vec<u8> = if compression.is_zeroed() {
            let mut z: Vec<u8> = Vec::new();
            let mut i: u64 = 0;
            while i < found.disk_len
                invariant
                    i <= found.disk_len,
                    z@ == zeros(i as nat),
                decreases found.disk_len - i,
            {
                z.push(0);
                proof {
                    assert(z@ =~= zeros((i + 1) as nat));
                }
                i += 1;
            }
            z
        } else if compression.is_compressed() && self.disk_header.compression == Compression::Zstd {
            match zstd_decompress_len(fetched, found.disk_len) {
                Some(d) => d,
                None => return Err(RvzError::Decompressing),
            }
        } else {
            copy_all(fetched)
        };
        assert(decompressed@ == self.decompressed(found, fetched@));
        let packing = found.inner.packing;
        let unpacked: Vec<u8> = if packing.is_packed() {
            if decompressed.len() as u64 != packing.len() as u64 {
                return Err(RvzError::CorruptFileSection);
            }
            match unpack(decompressed.as_slice(), ds.disk_offset as u32) {
                Some(u) => u,
                None => return Err(RvzError::CorruptFileSection),
            }
        } else {
            decompressed
        };
        let file_section_offset = c.current - ds.disk_offset - found.disk_start;
        let available = found.disk_len - file_section_offset;
        let to_read = if c.remaining < available { c.remaining } else { available };
        if (unpacked.len() as u64) < file_section_offset || (unpacked.len() as u64) - file_section_offset < to_read {
            return Err(RvzError::CorruptFileSection);
        }
        let out_start = c.current - c.disk_offset;
        copy_into(out, out_start, unpacked.as_slice(), file_section_offset, to_read);
        Ok(ReadCursor { current: c.current + to_read, remaining: c.remaining - to_read, ..*c })
    }
}

/// Where a seek goes: from the start of the disk, from its end, or from the current position.
#[derive(Debug, Clone, Copy, PartialEq, Eq, Structural)]
pub enum SeekTarget {
    Start(u64),
    End(i64),
    Current(i64),
}

/// `x` clamped to the range of `u64`.
pub open spec fn clamp_u64(x: int) -> u64 {
    if x < 0 {
        0
    } else if x > u64::MAX {
        u64::MAX
    } else {
        x as u64
    }
}

/// `base + delta`, clamped to the range of `u64`.
fn saturating_offset(base: u64, delta: i64) -> (r: u64)
    ensures
        r == clamp_u64(base + delta),
{
    if delta >= 0 {
        base.saturating_add(delta as u64)
    } else {
        let magnitude: u64 = if delta == i64::MIN { 0x8000_0000_0000_0000 } else { (-delta) as u64 };
        base.saturating_sub(magnitude)
    }
}

/// A cursor over the disk data of a RVZ.
#[derive(Debug, Clone)]
pub struct RvzReader {
    rvz: Rvz,
    position: u64,
}

impl RvzReader {
    /// A reader over `rvz`, at the start of the disk.
    pub fn new(rvz: Rvz) -> (r: RvzReader)
        ensures
            r.spec_rvz() == rvz,
            r.spec_position() == 0,
    {
        RvzReader { rvz, position: 0 }
    }

    /// The RVZ read from.
    pub closed spec fn spec_rvz(&self) -> Rvz {
        self.rvz
    }

    /// The disk offset the next read starts at.
    pub closed spec fn spec_position(&self) -> u64 {
        self.position
    }

    /// The RVZ read from.
    pub fn inner(&self) -> (r: &Rvz)
        ensures
            *r == self.spec_rvz(),
    {
        &self.rvz
    }

    /// The RVZ read from, taken back.
    pub fn into_inner(self) -> (r: Rvz)
        ensures
            r == self.spec_rvz(),
    {
        self.rvz
    }

    /// The disk offset the next read starts at.
    pub fn position(&self) -> (r: u64)
        ensures
            r == self.spec_position(),
    {
        self.position
    }

    /// Moves past `read` bytes that a read gave.
    pub fn advance(&mut self, read: u64)
        ensures
            final(self).spec_rvz() == old(self).spec_rvz(),
            final(self).spec_position() == clamp_u64(old(self).spec_position() + read),
    {
        self.position = self.position.saturating_add(read);
    }

    /// Moves the position, clamping it to the range of `u64`: to `x` from the start, or by `x`
    /// from the current position or from the end of the disk.
    pub fn seek(&mut self, target: SeekTarget) -> (r: u64)
        ensures
            final(self).spec_rvz() == old(self).spec_rvz(),
            r == final(self).spec_position(),
            final(self).spec_position() == match target {
                SeekTarget::Start(x) => x,
                SeekTarget::End(x) => clamp_u64(old(self).spec_rvz().rvz_header.inner.disk_len + x),
                SeekTarget::Current(x) => clamp_u64(old(self).spec_position() + x),
            },
    {
        match target {
            SeekTarget::Start(x) => {
                self.position = x;
            },
            SeekTarget::End(x) => {
                self.position = saturating_offset(self.rvz.rvz_header.inner.disk_len, x);
            },
            SeekTarget::Current(x) => {
                self.position = saturating_offset(self.position, x);
            },
        }
        self.position
    }
}
} // verus!

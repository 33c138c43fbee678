//! The `.dol` executable format of the GameCube: a fixed header of big-endian words that
//! places up to 7 text and 11 data sections, followed by the sections' contents.
use vstd::prelude::*;

verus! {

/// Size of the header, padding included; section offsets count from the start of the file.
pub const HEADER_SIZE: usize = 0x100;

/// Bytes of the header that hold words.
pub const HEADER_WORDS_LEN: usize = 0xE4;

/// The big-endian word at byte `at` of `s`.
pub open spec fn be_u32(s: Seq<u8>, at: int) -> u32 {
    (s[at] as int * 0x100_0000 + s[at + 1] as int * 0x1_0000 + s[at + 2] as int * 0x100 + s[at
        + 3] as int) as u32
}

/// The big-endian bytes of `w`.
pub open spec fn be_bytes(w: u32) -> Seq<u8> {
    seq![(w / 0x100_0000) as u8, ((w / 0x1_0000) % 0x100) as u8, ((w / 0x100) % 0x100) as u8, (w % 0x100) as u8]
}

/// Reading the big-endian bytes of a word gives back the word.
pub proof fn law_be_roundtrip(w: u32)
    ensures
        be_u32(be_bytes(w), 0) == w,
        be_bytes(w).len() == 4,
{
}

/// Reads the big-endian word at byte `at`.
pub fn read_be_u32(bytes: &[u8], at: usize) -> (w: u32)
    requires
        at + 4 <= bytes@.len(),
    ensures
        w == be_u32(bytes@, at as int),
{
    (bytes[at] as u32) * 0x100_0000 + (bytes[at + 1] as u32) * 0x1_0000 + (bytes[at + 2] as u32)
        * 0x100 + (bytes[at + 3] as u32)
}

/// Appends the big-endian bytes of `w`.
fn push_be_u32(out: &mut Vec<u8>, w: u32)
    ensures
        final(out)@ == old(out)@ + be_bytes(w),
{
    out.push((w / 0x100_0000) as u8);
    out.push(((w / 0x1_0000) % 0x100) as u8);
    out.push(((w / 0x100) % 0x100) as u8);
    out.push((w % 0x100) as u8);
    assert(final(out)@ =~= old(out)@ + be_bytes(w));
}

/// The header of a .dol file.
#[derive(Debug, Clone, Copy, Default)]
pub struct Header {
    /// Offset of the start of .text sections. An offset of zero means the section does not exist.
    pub text_offsets: [u32; 7],
    /// Offset of the start of .data sections. An offset of zero means the section does not exist.
    pub data_offsets: [u32; 11],
    /// Address where the .text sections should be loaded at.
    pub text_targets: [u32; 7],
    /// Address where the .data sections should be loaded at.
    pub data_targets: [u32; 11],
    /// Size of each .text section.
    pub text_sizes: [u32; 7],
    /// Size of each .data section.
    pub data_sizes: [u32; 11],
    /// Offset of the bss section.
    pub bss_target: u32,
    /// Size of the bss section.
    pub bss_size: u32,
    /// Entrypoint of the executable.
    pub entry: u32,
}

/// Where a section lies in the file, where it is loaded and how long it is.
#[derive(Debug, Clone, Copy, PartialEq, Eq, Structural)]
pub struct SectionInfo {
    pub offset: u32,
    pub target: u32,
    pub size: u32,
}

/// The sections among the first `n` slots: those whose offset is not zero, in slot order.
pub open spec fn sections_upto(offsets: Seq<u32>, targets: Seq<u32>, sizes: Seq<u32>, n: int) -> Seq<
    SectionInfo,
>
    decreases n,
{
    if n <= 0 {
        seq![]
    } else {
        let prev = sections_upto(offsets, targets, sizes, n - 1);
        if offsets[n - 1] == 0 {
            prev
        } else {
            prev.push(SectionInfo { offset: offsets[n - 1], target: targets[n - 1], size: sizes[n - 1] })
        }
    }
}

/// The highest end (offset plus size) of `sections`, zero when there is none.
pub open spec fn max_end(sections: Seq<SectionInfo>) -> int
    decreases sections.len(),
{
    if sections.len() == 0 {
        0
    } else {
        let rest = max_end(sections.drop_last());
        let end = sections.last().offset + sections.last().size;
        if end > rest {
            end
        } else {
            rest
        }
    }
}

/// Every section that `sections_upto` keeps comes from a slot with a non-zero offset, and
/// every such slot gives one.
proof fn lemma_sections_upto(offsets: Seq<u32>, targets: Seq<u32>, sizes: Seq<u32>, n: int)
    requires
        0 <= n <= offsets.len(),
        n <= targets.len(),
        n <= sizes.len(),
    ensures
        forall|k: int| 0 <= k < sections_upto(offsets, targets, sizes, n).len() ==> exists|i: int|
            0 <= i < n && offsets[i] != 0 && #[trigger] sections_upto(offsets, targets, sizes, n)[k]
                == (SectionInfo { offset: offsets[i], target: targets[i], size: sizes[i] }),
        sections_upto(offsets, targets, sizes, n).len() <= n,
    decreases n,
{
    if n > 0 {
        lemma_sections_upto(offsets, targets, sizes, n - 1);
        let prev = sections_upto(offsets, targets, sizes, n - 1);
        let cur = sections_upto(offsets, targets, sizes, n);
        assert forall|k: int| 0 <= k < cur.len() implies exists|i: int|
            0 <= i < n && offsets[i] != 0 && #[trigger] cur[k] == (SectionInfo {
                offset: offsets[i],
                target: targets[i],
                size: sizes[i],
            }) by {
            if k < prev.len() {
                assert(cur[k] == prev[k]);
            } else {
                assert(cur[k] == (SectionInfo { offset: offsets[n - 1], target: targets[n - 1], size: sizes[n - 1] }));
            }
        }
    }
}

/// No section end is above the highest end, and the highest end is that of some section (or
/// zero when there are none).
pub proof fn law_max_end(sections: Seq<SectionInfo>)
    ensures
        forall|k: int| 0 <= k < sections.len() ==> #[trigger] sections[k].offset + sections[k].size
            <= max_end(sections),
        sections.len() == 0 ==> max_end(sections) == 0,
        sections.len() > 0 ==> exists|k: int| 0 <= k < sections.len() && max_end(sections)
            == #[trigger] sections[k].offset + sections[k].size,
    decreases sections.len(),
{
    if sections.len() > 0 {
        let rest = sections.drop_last();
        law_max_end(rest);
        assert forall|k: int| 0 <= k < sections.len() implies #[trigger] sections[k].offset
            + sections[k].size <= max_end(sections) by {
            if k < rest.len() {
                assert(sections[k] == rest[k]);
            }
        }
        if rest.len() > 0 && max_end(sections) == max_end(rest) {
            let k = choose|k: int| 0 <= k < rest.len() && max_end(rest) == #[trigger] rest[k].offset
                + rest[k].size;
            assert(sections[k] == rest[k]);
        } else {
            assert(max_end(sections) == sections[sections.len() - 1].offset + sections[sections.len()
                - 1].size);
        }
    }
}

/// Collects the sections among the slots whose offset is not zero.
fn collect_sections<const N: usize>(offsets: &[u32; N], targets: &[u32; N], sizes: &[u32; N]) -> (v:
    Vec<SectionInfo>)
    ensures
        v@ == sections_upto(offsets@, targets@, sizes@, N as int),
{
    let mut v: Vec<SectionInfo> = Vec::new();
    let mut i: usize = 0;
    while i < N
        invariant
            i <= N,
            offsets@.len() == N,
            targets@.len() == N,
            sizes@.len() == N,
            v@ == sections_upto(offsets@, targets@, sizes@, i as int),
        decreases N - i,
    {
        let offset = offsets[i];
        if offset != 0 {
            v.push(SectionInfo { offset, target: targets[i], size: sizes[i] });
        }
        i += 1;
    }
    v
}

impl Header {
    /// The text sections: the slots whose offset is not zero.
    pub open spec fn spec_text_sections(&self) -> Seq<SectionInfo> {
        sections_upto(self.text_offsets@, self.text_targets@, self.text_sizes@, 7)
    }

    /// The data sections: the slots whose offset is not zero.
    pub open spec fn spec_data_sections(&self) -> Seq<SectionInfo> {
        sections_upto(self.data_offsets@, self.data_targets@, self.data_sizes@, 11)
    }

    /// Every section, text first.
    pub open spec fn spec_sections(&self) -> Seq<SectionInfo> {
        self.spec_text_sections() + self.spec_data_sections()
    }

    /// Whether the end of every section fits in 32 bits.
    pub open spec fn ends_fit(&self) -> bool {
        forall|k: int| 0 <= k < self.spec_sections().len() ==> #[trigger] self.spec_sections()[k].offset
            + self.spec_sections()[k].size <= u32::MAX
    }

    /// The text sections.
    pub fn text_sections(&self) -> (v: Vec<SectionInfo>)
        ensures
            v@ == self.spec_text_sections(),
    {
        collect_sections(&self.text_offsets, &self.text_targets, &self.text_sizes)
    }

    /// The data sections.
    pub fn data_sections(&self) -> (v: Vec<SectionInfo>)
        ensures
            v@ == self.spec_data_sections(),
    {
        collect_sections(&self.data_offsets, &self.data_targets, &self.data_sizes)
    }

    /// Size of the .dol file. This is computed from the text and data sections: each section
    /// has an end, and the size of the .dol is considered to be the highest end.
    pub fn size(&self) -> (r: u32)
        requires
            self.ends_fit(),
        ensures
            r == max_end(self.spec_sections()),
    {
        let mut sections = self.text_sections();
        let mut data = self.data_sections();
        sections.append(&mut data);
        let ghost all = sections@;
        assert(all =~= self.spec_sections());
        let mut best: u32 = 0;
        let mut i: usize = 0;
        while i < sections.len()
            invariant
                i <= sections@.len(),
                sections@ == all,
                all == self.spec_sections(),
                self.ends_fit(),
                best == max_end(all.take(i as int)),
            decreases sections.len() - i,
        {
            let sec = sections[i];
            assert(all.take(i as int + 1).drop_last() =~= all.take(i as int));
            assert(sec.offset + sec.size <= u32::MAX);
            let end = sec.offset + sec.size;
            if end > best {
                best = end;
            }
            i += 1;
        }
        assert(all.take(i as int) =~= all);
        best
    }

    /// Reads a header from the big-endian words at the start of `bytes`.
    pub fn read(bytes: &[u8]) -> (r: Result<Header, DolError>)
        ensures
            bytes@.len() < HEADER_WORDS_LEN ==> r == Err::<Header, DolError>(DolError::UnexpectedEnd),
            bytes@.len() >= HEADER_WORDS_LEN ==> r is Ok && r->Ok_0.read_from(bytes@),
    {
        if bytes.len() < HEADER_WORDS_LEN {
            return Err(DolError::UnexpectedEnd);
        }
        let text_offsets = read_words::<7>(bytes, 0x00);
        let data_offsets = read_words::<11>(bytes, 0x1C);
        let text_targets = read_words::<7>(bytes, 0x48);
        let data_targets = read_words::<11>(bytes, 0x64);
        let text_sizes = read_words::<7>(bytes, 0x90);
        let data_sizes = read_words::<11>(bytes, 0xAC);
        Ok(Header {
            text_offsets,
            data_offsets,
            text_targets,
            data_targets,
            text_sizes,
            data_sizes,
            bss_target: read_be_u32(bytes, 0xD8),
            bss_size: read_be_u32(bytes, 0xDC),
            entry: read_be_u32(bytes, 0xE0),
        })
    }

    /// Whether this header is the one written in the words at the start of `s`.
    pub open spec fn read_from(&self, s: Seq<u8>) -> bool {
        &&& self.text_offsets@ == words(s, 0x00, 7)
        &&& self.data_offsets@ == words(s, 0x1C, 11)
        &&& self.text_targets@ == words(s, 0x48, 7)
        &&& self.data_targets@ == words(s, 0x64, 11)
        &&& self.text_sizes@ == words(s, 0x90, 7)
        &&& self.data_sizes@ == words(s, 0xAC, 11)
        &&& self.bss_target == be_u32(s, 0xD8)
        &&& self.bss_size == be_u32(s, 0xDC)
        &&& self.entry == be_u32(s, 0xE0)
    }

    /// The words of this header in declaration order.
    pub open spec fn spec_words(&self) -> Seq<u32> {
        self.text_offsets@ + self.data_offsets@ + self.text_targets@ + self.data_targets@
            + self.text_sizes@ + self.data_sizes@ + seq![self.bss_target, self.bss_size, self.entry]
    }

    /// The bytes of this header: its words, big-endian, in declaration order.
    pub open spec fn spec_to_bytes(&self) -> Seq<u8> {
        words_bytes(self.spec_words())
    }

    /// Writes this header: its words, big-endian, in declaration order.
    pub fn to_bytes(&self) -> (v: Vec<u8>)
        ensures
            v@ == self.spec_to_bytes(),
    {
        let mut v: Vec<u8> = Vec::new();
        write_words(&mut v, &self.text_offsets);
        write_words(&mut v, &self.data_offsets);
        write_words(&mut v, &self.text_targets);
        write_words(&mut v, &self.data_targets);
        write_words(&mut v, &self.text_sizes);
        write_words(&mut v, &self.data_sizes);
        push_be_u32(&mut v, self.bss_target);
        push_be_u32(&mut v, self.bss_size);
        push_be_u32(&mut v, self.entry);
        proof {
            lemma_header_bytes_split(*self);
            assert(v@ =~= self.spec_to_bytes());
        }
        v
    }
}

/// The `n` big-endian words at byte `at` of `s`.
pub open spec fn words(s: Seq<u8>, at: int, n: int) -> Seq<u32> {
    Seq::new(n as nat, |i: int| be_u32(s, at + 4 * i))
}

/// The big-endian bytes of `ws`, one word after another.
pub open spec fn words_bytes(ws: Seq<u32>) -> Seq<u8>
    decreases ws.len(),
{
    if ws.len() == 0 {
        seq![]
    } else {
        words_bytes(ws.drop_last()) + be_bytes(ws.last())
    }
}

fn read_words<const N: usize>(bytes: &[u8], at: usize) -> (ws: [u32; N])
    requires
        at + 4 * N <= bytes@.len(),
    ensures
        ws@ == words(bytes@, at as int, N as int),
{
    let mut ws = [0u32; N];
    let len = bytes.len();
    let mut i: usize = 0;
    while i < N
        invariant
            i <= N,
            len == bytes@.len(),
            at + 4 * N <= bytes@.len(),
            ws@.len() == N,
            forall|j: int| 0 <= j < i ==> ws@[j] == be_u32(bytes@, at + 4 * j),
        decreases N - i,
    {
        ws[i] = read_be_u32(bytes, at + 4 * i);
        i += 1;
    }
    assert(ws@ =~= words(bytes@, at as int, N as int));
    ws
}

fn write_words<const N: usize>(out: &mut Vec<u8>, ws: &[u32; N])
    ensures
        final(out)@ == old(out)@ + words_bytes(ws@),
{
    let mut i: usize = 0;
    while i < N
        invariant
            i <= N,
            ws@.len() == N,
            out@ == old(out)@ + words_bytes(ws@.take(i as int)),
        decreases N - i,
    {
        push_be_u32(out, ws[i]);
        proof {
            assert(ws@.take(i as int + 1).drop_last() =~= ws@.take(i as int));
            assert(old(out)@ + words_bytes(ws@.take(i as int)) + be_bytes(ws@[i as int]) =~= old(out)@
                + words_bytes(ws@.take(i as int + 1)));
        }
        i += 1;
    }
    assert(ws@.take(N as int) =~= ws@);
}

/// The bytes of `bytes` from `start` up to `end`, copied.
fn copy_bytes(bytes: &[u8], start: usize, end: usize) -> (v: Vec<u8>)
    requires
        start <= end <= bytes@.len(),
    ensures
        v@ == bytes@.subrange(start as int, end as int),
{
    let mut v: Vec<u8> = Vec::new();
    let mut i: usize = start;
    while i < end
        invariant
            start <= i <= end <= bytes@.len(),
            v@ == bytes@.subrange(start as int, i as int),
        decreases end - i,
    {
        v.push(bytes[i]);
        proof {
            assert(v@ =~= bytes@.subrange(start as int, i as int + 1));
        }
        i += 1;
    }
    v
}

/// Why bytes are not a .dol file.
#[derive(Debug, Clone, Copy, PartialEq, Eq, Structural)]
pub enum DolError {
    /// The bytes end before the header or a section does.
    UnexpectedEnd,
}

/// A section of a .dol: where it is loaded and its contents.
#[derive(Debug, Clone, Copy)]
pub struct Section<'a> {
    pub target: u32,
    pub content: &'a [u8],
}

/// A .dol executable.
#[derive(Debug, Clone)]
pub struct Dol {
    /// Header of the executable.
    pub header: Header,
    /// Body of the executable: the file from the end of the header on.
    pub body: Vec<u8>,
}

/// Whether `sec` lies in a body of `len` bytes that starts at file offset `HEADER_SIZE`.
pub open spec fn in_body(sec: SectionInfo, len: int) -> bool {
    sec.offset >= HEADER_SIZE && sec.offset - HEADER_SIZE + sec.size <= len
}

impl Dol {
    /// The contents of a section: `size` bytes at file offset `offset`.
    pub open spec fn spec_bytes(&self, offset: u32, size: u32) -> Seq<u8> {
        self.body@.subrange(offset - HEADER_SIZE, offset - HEADER_SIZE + size)
    }

    /// The `size` bytes at file offset `offset`.
    fn bytes(&self, offset: u32, size: u32) -> (r: &[u8])
        requires
            offset >= HEADER_SIZE,
            offset - HEADER_SIZE + size <= self.body@.len(),
        ensures
            r@ == self.spec_bytes(offset, size),
    {
        let start: usize = offset as usize - HEADER_SIZE;
        let len: usize = size as usize;
        let body_len: usize = self.body.len();
        assert(start + len <= body_len);
        &self.body.as_slice()[start..start + len]
    }

    /// The loaded forms of `infos`.
    fn load(&self, infos: Vec<SectionInfo>) -> (v: Vec<Section<'_>>)
        requires
            forall|k: int| 0 <= k < infos@.len() ==> in_body(#[trigger] infos@[k], self.body@.len() as int),
        ensures
            v@.len() == infos@.len(),
            forall|k: int| 0 <= k < v@.len() ==> #[trigger] v@[k].target == infos@[k].target
                && v@[k].content@ == self.spec_bytes(infos@[k].offset, infos@[k].size),
    {
        let mut v: Vec<Section<'_>> = Vec::new();
        let mut i: usize = 0;
        while i < infos.len()
            invariant
                i <= infos@.len(),
                forall|k: int| 0 <= k < infos@.len() ==> in_body(#[trigger] infos@[k], self.body@.len() as int),
                v@.len() == i,
                forall|k: int| 0 <= k < i ==> #[trigger] v@[k].target == infos@[k].target
                    && v@[k].content@ == self.spec_bytes(infos@[k].offset, infos@[k].size),
            decreases infos.len() - i,
        {
            let info = infos[i];
            let content = self.bytes(info.offset, info.size);
            v.push(Section { target: info.target, content });
            i += 1;
        }
        v
    }

    /// The text sections with their contents.
    pub fn text_sections(&self) -> (v: Vec<Section<'_>>)
        requires
            forall|k: int| 0 <= k < self.header.spec_text_sections().len() ==> in_body(
                #[trigger] self.header.spec_text_sections()[k],
                self.body@.len() as int,
            ),
        ensures
            v@.len() == self.header.spec_text_sections().len(),
            forall|k: int| 0 <= k < v@.len() ==> #[trigger] v@[k].target == self.header.spec_text_sections()[k].target
                && v@[k].content@ == self.spec_bytes(self.header.spec_text_sections()[k].offset, self.header.spec_text_sections()[k].size),
    {
        let infos = self.header.text_sections();
        let ghost g = infos@;
        assert(g == self.header.spec_text_sections());
        let v = self.load(infos);
        proof {
            assert forall|k: int| 0 <= k < v@.len() implies #[trigger] v@[k].target == self.header.spec_text_sections()[k].target
                && v@[k].content@ == self.spec_bytes(self.header.spec_text_sections()[k].offset, self.header.spec_text_sections()[k].size) by {
                assert(g[k] == self.header.spec_text_sections()[k]);
                assert(v@[k].target == g[k].target);
                assert(v@[k].content@ == self.spec_bytes(g[k].offset, g[k].size));
            }
        }
        v
    }

    /// The data sections with their contents.
    pub fn data_sections(&self) -> (v: Vec<Section<'_>>)
        requires
            forall|k: int| 0 <= k < self.header.spec_data_sections().len() ==> in_body(
                #[trigger] self.header.spec_data_sections()[k],
                self.body@.len() as int,
            ),
        ensures
            v@.len() == self.header.spec_data_sections().len(),
            forall|k: int| 0 <= k < v@.len() ==> #[trigger] v@[k].target == self.header.spec_data_sections()[k].target
                && v@[k].content@ == self.spec_bytes(self.header.spec_data_sections()[k].offset, self.header.spec_data_sections()[k].size),
    {
        let infos = self.header.data_sections();
        let ghost g = infos@;
        assert(g == self.header.spec_data_sections());
        let v = self.load(infos);
        proof {
            assert forall|k: int| 0 <= k < v@.len() implies #[trigger] v@[k].target == self.header.spec_data_sections()[k].target
                && v@[k].content@ == self.spec_bytes(self.header.spec_data_sections()[k].offset, self.header.spec_data_sections()[k].size) by {
                assert(g[k] == self.header.spec_data_sections()[k]);
                assert(v@[k].target == g[k].target);
                assert(v@[k].content@ == self.spec_bytes(g[k].offset, g[k].size));
            }
        }
        v
    }

    /// The entrypoint of the executable.
    pub fn entrypoint(&self) -> (e: u32)
        ensures
            e == self.header.entry,
    {
        self.header.entry
    }

    /// Reads a .dol whose body runs from the end of the header to the highest section end.
    pub fn read(bytes: &[u8]) -> (r: Result<Dol, DolError>)
        requires
            bytes@.len() >= HEADER_WORDS_LEN ==> forall|h: Header| #[trigger] h.read_from(bytes@)
                ==> h.ends_fit() && max_end(h.spec_sections()) >= HEADER_SIZE,
        ensures
            bytes@.len() < HEADER_WORDS_LEN ==> r == Err::<Dol, DolError>(DolError::UnexpectedEnd),
            bytes@.len() >= HEADER_WORDS_LEN ==> match r {
                Ok(d) => d.header.read_from(bytes@) && bytes@.len() >= max_end(d.header.spec_sections())
                    && d.body@ == bytes@.subrange(HEADER_SIZE as int, max_end(d.header.spec_sections())),
                Err(e) => e == DolError::UnexpectedEnd && forall|h: Header| #[trigger] h.read_from(bytes@)
                    ==> bytes@.len() < max_end(h.spec_sections()),
            },
    {
        let header = match Header::read(bytes) {
            Ok(h) => h,
            Err(e) => return Err(e),
        };
        let size = header.size();
        if bytes.len() < size as usize {
            proof {
                assert forall|h: Header| #[trigger] h.read_from(bytes@) implies bytes@.len() < max_end(h.spec_sections()) by {
                    lemma_read_from_unique(h, header, bytes@);
                }
            }
            return Err(DolError::UnexpectedEnd);
        }
        let body = copy_bytes(bytes, HEADER_SIZE, size as usize);
        Ok(Dol { header, body })
    }

    /// Reads a .dol whose body is everything after the header.
    pub fn read_until_eof(bytes: &[u8]) -> (r: Result<Dol, DolError>)
        ensures
            bytes@.len() < HEADER_WORDS_LEN ==> r == Err::<Dol, DolError>(DolError::UnexpectedEnd),
            bytes@.len() >= HEADER_WORDS_LEN ==> r is Ok && r->Ok_0.header.read_from(bytes@)
                && r->Ok_0.body@ == (if bytes@.len() > HEADER_SIZE { bytes@.subrange(HEADER_SIZE as int, bytes@.len() as int) } else { Seq::<u8>::empty() }),
    {
        let header = match Header::read(bytes) {
            Ok(h) => h,
            Err(e) => return Err(e),
        };
        let body = if bytes.len() > HEADER_SIZE {
            copy_bytes(bytes, HEADER_SIZE, bytes.len())
        } else {
            Vec::new()
        };
        Ok(Dol { header, body })
    }

    /// The bytes of this executable: its header, zero padding up to `HEADER_SIZE`, and its
    /// body.
    pub open spec fn spec_to_bytes(&self) -> Seq<u8> {
        self.header.spec_to_bytes() + Seq::new((HEADER_SIZE - HEADER_WORDS_LEN) as nat, |i: int| 0u8)
            + self.body@
    }

    /// Writes this executable: its header, zero padding up to `HEADER_SIZE`, and its body.
    pub fn to_bytes(&self) -> (v: Vec<u8>)
        ensures
            v@ == self.spec_to_bytes(),
    {
        let mut v = self.header.to_bytes();
        proof {
            lemma_header_bytes_len(self.header);
        }
        let mut i: usize = HEADER_WORDS_LEN;
        while i < HEADER_SIZE
            invariant
                HEADER_WORDS_LEN <= i <= HEADER_SIZE,
                v@ == self.header.spec_to_bytes() + Seq::new((i - HEADER_WORDS_LEN) as nat, |j: int| 0u8),
            decreases HEADER_SIZE - i,
        {
            v.push(0);
            proof {
                assert(v@ =~= self.header.spec_to_bytes() + Seq::new((i + 1 - HEADER_WORDS_LEN) as nat, |j: int| 0u8));
            }
            i += 1;
        }
        let mut body = self.body.clone();
        v.append(&mut body);
        v
    }
}

/// Two headers read from the same bytes are the same header, field by field.
proof fn lemma_read_from_unique(a: Header, b: Header, s: Seq<u8>)
    requires
        a.read_from(s),
        b.read_from(s),
    ensures
        a.spec_sections() == b.spec_sections(),
{
}

/// The written header is `HEADER_WORDS_LEN` bytes long.
proof fn lemma_header_bytes_len(h: Header)
    ensures
        h.spec_to_bytes().len() == HEADER_WORDS_LEN,
{
    lemma_words_bytes(h.spec_words());
}

/// The bytes of a run of words: four per word, each word readable at its place.
proof fn lemma_words_bytes(ws: Seq<u32>)
    ensures
        words_bytes(ws).len() == 4 * ws.len(),
        forall|i: int| 0 <= i < ws.len() ==> be_u32(words_bytes(ws), 4 * i) == #[trigger] ws[i],
    decreases ws.len(),
{
    if ws.len() > 0 {
        let init = ws.drop_last();
        lemma_words_bytes(init);
        let b = words_bytes(ws);
        assert forall|i: int| 0 <= i < ws.len() implies be_u32(b, 4 * i) == #[trigger] ws[i] by {
            if i < init.len() {
                assert(init[i] == ws[i]);
                assert(b[4 * i] == words_bytes(init)[4 * i]);
                assert(b[4 * i + 1] == words_bytes(init)[4 * i + 1]);
                assert(b[4 * i + 2] == words_bytes(init)[4 * i + 2]);
                assert(b[4 * i + 3] == words_bytes(init)[4 * i + 3]);
            } else {
                law_be_roundtrip(ws.last());
                assert(b[4 * i] == be_bytes(ws.last())[0]);
                assert(b[4 * i + 1] == be_bytes(ws.last())[1]);
                assert(b[4 * i + 2] == be_bytes(ws.last())[2]);
                assert(b[4 * i + 3] == be_bytes(ws.last())[3]);
            }
        }
    }
}


/// A word read inside the first part of a concatenation is read from that part.
proof fn lemma_be_u32_front(a: Seq<u8>, b: Seq<u8>, at: int)
    requires
        0 <= at,
        at + 4 <= a.len(),
    ensures
        be_u32(a + b, at) == be_u32(a, at),
{
    assert((a + b)[at] == a[at]);
    assert((a + b)[at + 1] == a[at + 1]);
    assert((a + b)[at + 2] == a[at + 2]);
    assert((a + b)[at + 3] == a[at + 3]);
}

/// The written header, word run by word run.
proof fn lemma_header_bytes_split(h: Header)
    ensures
        h.spec_to_bytes() == words_bytes(h.text_offsets@) + words_bytes(h.data_offsets@)
            + words_bytes(h.text_targets@) + words_bytes(h.data_targets@) + words_bytes(h.text_sizes@)
            + words_bytes(h.data_sizes@) + be_bytes(h.bss_target) + be_bytes(h.bss_size) + be_bytes(h.entry),
{
    let t = seq![h.bss_target, h.bss_size, h.entry];
    assert(t.drop_last().drop_last().drop_last() =~= Seq::<u32>::empty());
    assert(t.drop_last().drop_last() =~= seq![h.bss_target]);
    assert(t.drop_last() =~= seq![h.bss_target, h.bss_size]);
    assert(words_bytes(t.drop_last().drop_last()) =~= be_bytes(h.bss_target)) by {
        reveal_with_fuel(words_bytes, 2);
    }
    assert(words_bytes(t.drop_last()) =~= be_bytes(h.bss_target) + be_bytes(h.bss_size));
    assert(words_bytes(t) =~= be_bytes(h.bss_target) + be_bytes(h.bss_size) + be_bytes(h.entry));
    lemma_words_bytes_add(h.text_offsets@, h.data_offsets@);
    let a1 = h.text_offsets@ + h.data_offsets@;
    lemma_words_bytes_add(a1, h.text_targets@);
    let a2 = a1 + h.text_targets@;
    lemma_words_bytes_add(a2, h.data_targets@);
    let a3 = a2 + h.data_targets@;
    lemma_words_bytes_add(a3, h.text_sizes@);
    let a4 = a3 + h.text_sizes@;
    lemma_words_bytes_add(a4, h.data_sizes@);
    let a5 = a4 + h.data_sizes@;
    lemma_words_bytes_add(a5, t);
    assert(h.spec_words() == a5 + t);
}

/// Writing two runs of words one after the other writes their concatenation.
proof fn lemma_words_bytes_add(a: Seq<u32>, b: Seq<u32>)
    ensures
        words_bytes(a + b) == words_bytes(a) + words_bytes(b),
    decreases b.len(),
{
    if b.len() == 0 {
        assert(a + b =~= a);
        assert(words_bytes(a) + words_bytes(b) =~= words_bytes(a));
    } else {
        lemma_words_bytes_add(a, b.drop_last());
        assert((a + b).drop_last() =~= a + b.drop_last());
        assert(words_bytes(a + b) =~= words_bytes(a) + words_bytes(b));
    }
}

/// The header written at the start of `s` is read back from `s`.
proof fn lemma_header_read_back(h: Header, tail: Seq<u8>)
    ensures
        h.read_from(h.spec_to_bytes() + tail),
{
    let ws = h.spec_words();
    let s = h.spec_to_bytes() + tail;
    lemma_words_bytes(ws);
    assert forall|i: int| 0 <= i < ws.len() implies be_u32(s, 4 * i) == #[trigger] ws[i] by {
        lemma_be_u32_front(words_bytes(ws), tail, 4 * i);
    }
    assert(h.text_offsets@ =~= words(s, 0x00, 7)) by {
        assert forall|i: int| 0 <= i < 7 implies #[trigger] h.text_offsets@[i] == be_u32(s, 4 * i) by {
            assert(ws[i] == h.text_offsets@[i]);
        }
    }
    assert(h.data_offsets@ =~= words(s, 0x1C, 11)) by {
        assert forall|i: int| 0 <= i < 11 implies #[trigger] h.data_offsets@[i] == be_u32(s, 4 * (7 + i)) by {
            assert(ws[7 + i] == h.data_offsets@[i]);
        }
    }
    assert(h.text_targets@ =~= words(s, 0x48, 7)) by {
        assert forall|i: int| 0 <= i < 7 implies #[trigger] h.text_targets@[i] == be_u32(s, 4 * (18 + i)) by {
            assert(ws[18 + i] == h.text_targets@[i]);
        }
    }
    assert(h.data_targets@ =~= words(s, 0x64, 11)) by {
        assert forall|i: int| 0 <= i < 11 implies #[trigger] h.data_targets@[i] == be_u32(s, 4 * (25 + i)) by {
            assert(ws[25 + i] == h.data_targets@[i]);
        }
    }
    assert(h.text_sizes@ =~= words(s, 0x90, 7)) by {
        assert forall|i: int| 0 <= i < 7 implies #[trigger] h.text_sizes@[i] == be_u32(s, 4 * (36 + i)) by {
            assert(ws[36 + i] == h.text_sizes@[i]);
        }
    }
    assert(h.data_sizes@ =~= words(s, 0xAC, 11)) by {
        assert forall|i: int| 0 <= i < 11 implies #[trigger] h.data_sizes@[i] == be_u32(s, 4 * (43 + i)) by {
            assert(ws[43 + i] == h.data_sizes@[i]);
        }
    }
    assert(ws[54] == h.bss_target);
    assert(ws[55] == h.bss_size);
    assert(ws[56] == h.entry);
}

/// What `to_bytes` writes, `read_until_eof` reads back: the header is the one read from the
/// written bytes, and the body is everything after the padded header.
pub proof fn law_dol_roundtrip(d: Dol)
    ensures
        d.spec_to_bytes().len() == HEADER_SIZE + d.body@.len(),
        d.header.read_from(d.spec_to_bytes()),
        d.spec_to_bytes().subrange(HEADER_SIZE as int, d.spec_to_bytes().len() as int) == d.body@,
{
    let pad = Seq::new((HEADER_SIZE - HEADER_WORDS_LEN) as nat, |i: int| 0u8);
    lemma_header_bytes_len(d.header);
    lemma_header_read_back(d.header, pad + d.body@);
    let s = d.spec_to_bytes();
    assert(s =~= d.header.spec_to_bytes() + (pad + d.body@));
    assert(s.subrange(HEADER_SIZE as int, s.len() as int) =~= d.body@);
}

} // verus!

verus! {

/// Why an executable could not be opened.
#[derive(Debug, Clone, Copy, PartialEq, Eq, Structural)]
pub enum OpenError {
    /// The file's extension names no format the system boots.
    UnknownFormat,
    /// The file could not be read.
    Io,
}

/// An executable that the system can boot.
#[derive(Debug, Clone)]
pub enum Executable {
    Dol(Dol),
}

/// Whether a file extension names the .dol format.
pub open spec fn is_dol_extension(extension: Option<Seq<u8>>) -> bool {
    extension == Some(seq![0x64u8, 0x6F, 0x6C])
}

/// Whether `bytes` read as a .dol: they hold a header whose sections end past it, and every
/// section.
pub open spec fn dol_readable(bytes: Seq<u8>) -> bool {
    &&& bytes.len() >= HEADER_WORDS_LEN
    &&& forall|h: Header| #[trigger] h.read_from(bytes) ==> h.ends_fit() && max_end(h.spec_sections()) >= HEADER_SIZE
        && bytes.len() >= max_end(h.spec_sections())
}

/// Whether `extension` is the three bytes `dol`.
fn names_dol(extension: &[u8]) -> (r: bool)
    ensures
        r == (extension@ == seq![0x64u8, 0x6F, 0x6C]),
{
    if extension.len() != 3 {
        return false;
    }
    let r = extension[0] == 0x64 && extension[1] == 0x6F && extension[2] == 0x6C;
    proof {
        if r {
            assert(extension@ =~= seq![0x64u8, 0x6F, 0x6C]);
        }
    }
    r
}

impl Executable {
    /// Opens an executable from the contents of its file, by the file's extension: `dol` is a
    /// .dol, any other is refused.
    pub fn from_file(extension: Option<&[u8]>, bytes: &[u8]) -> (r: Result<Executable, OpenError>)
        requires
            is_dol_extension(match extension {
                Some(e) => Some(e@),
                None => None,
            }) ==> dol_readable(bytes@),
        ensures
            ({
                let ext = match extension {
                    Some(e) => Some(e@),
                    None => None,
                };
                if is_dol_extension(ext) {
                    r matches Ok(Executable::Dol(d)) && d.header.read_from(bytes@)
                        && d.body@ == bytes@.subrange(HEADER_SIZE as int, max_end(d.header.spec_sections()))
                } else {
                    r == Err::<Executable, OpenError>(OpenError::UnknownFormat)
                }
            }),
    {
        let is_dol = match extension {
            Some(e) => names_dol(e),
            None => false,
        };
        if !is_dol {
            return Err(OpenError::UnknownFormat);
        }
        match Dol::read(bytes) {
            Ok(d) => Ok(Executable::Dol(d)),
            Err(_) => {
                let header = Header::read(bytes);
                proof {
                    if let Ok(h) = header {
                        assert(h.read_from(bytes@));
                    }
                }
                Err(OpenError::UnknownFormat)
            },
        }
    }
}

} // verus!

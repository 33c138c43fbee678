//! Memory of the system: the RAM, L2 cache and IPL regions, and the lookup tables that
//! translate logical addresses into physical ones page by page (128 KiB pages) from the block
//! address translation (BAT) registers.
use vstd::prelude::*;

verus! {

/// Length of the main RAM.
pub const RAM_LEN: usize = 0x180_0000;

/// Length of the locked L2 cache.
pub const L2C_LEN: usize = 0x4000;

/// Length of the IPL ROM.
pub const IPL_LEN: usize = 0x20_0000;

pub const RAM_START: u32 = 0x0000_0000;
pub const RAM_END: u32 = 0x017F_FFFF;
pub const L2C_START: u32 = 0xE000_0000;
pub const L2C_END: u32 = 0xE000_3FFF;
pub const IPL_START: u32 = 0xFFF0_0000;
pub const IPL_END: u32 = 0xFFFF_FFFF;

/// Number of 128 KiB pages in the address space.
pub const PAGES_COUNT: usize = 0x8000;

/// The value of a page translation that maps nowhere.
pub const NO_MAPPING: u16 = 0x8000;

/// Where a logical page is mapped: the physical page number, or `NO_MAPPING`.
#[derive(Debug, Clone, Copy, PartialEq, Eq, Structural)]
pub struct PageTranslation(pub u16);

/// `offset` with its bits from 17 up replaced by `base`.
pub open spec fn with_page(offset: u32, base: u16) -> u32 {
    (offset & 0x1FFFF) | ((base as u32) << 17u32)
}

impl PageTranslation {
    /// A translation to the physical page `physical_base`, or one that maps nowhere.
    pub fn new(physical_base: Option<u16>) -> (r: PageTranslation)
        ensures
            r.0 == match physical_base {
                Some(b) => b,
                None => NO_MAPPING,
            },
    {
        match physical_base {
            Some(b) => PageTranslation(b),
            None => PageTranslation(NO_MAPPING),
        }
    }

    /// The physical page number, if the page is mapped.
    pub open spec fn spec_base(&self) -> Option<u16> {
        if self.0 != NO_MAPPING {
            Some(self.0)
        } else {
            None
        }
    }

    /// The physical page number, if the page is mapped.
    pub fn base(&self) -> (r: Option<u16>)
        ensures
            r == self.spec_base(),
    {
        if self.0 != NO_MAPPING {
            Some(self.0)
        } else {
            None
        }
    }

    /// Translates an address of this page: its offset in the page, on the physical page.
    pub fn translate(&self, offset: u32) -> (r: Option<u32>)
        ensures
            r == match self.spec_base() {
                Some(b) => Some(with_page(offset, b)),
                None => None,
            },
    {
        match self.base() {
            Some(base) => Some((offset & 0x1FFFF) | ((base as u32) << 17u32)),
            None => None,
        }
    }
}

/// A memory region.
#[derive(Debug, Clone, Copy, PartialEq, Eq, Structural)]
pub enum Region {
    Ram,
    L2c,
    Ipl,
}

/// The region that holds the physical address `addr`, and the offset into it.
pub open spec fn spec_region_of(addr: u32) -> Option<(Region, u32)> {
    if RAM_START <= addr <= RAM_END {
        Some((Region::Ram, (addr - RAM_START) as u32))
    } else if L2C_START <= addr <= L2C_END {
        Some((Region::L2c, (addr - L2C_START) as u32))
    } else if IPL_START <= addr <= IPL_END {
        Some((Region::Ipl, (addr - IPL_START) as u32))
    } else {
        None
    }
}

impl Region {
    /// The region that holds the physical address `addr`, and the offset into it.
    pub fn of(addr: u32) -> (r: Option<(Region, u32)>)
        ensures
            r == spec_region_of(addr),
    {
        if addr <= RAM_END {
            Some((Region::Ram, addr - RAM_START))
        } else if L2C_START <= addr && addr <= L2C_END {
            Some((Region::L2c, addr - L2C_START))
        } else if IPL_START <= addr {
            Some((Region::Ipl, addr - IPL_START))
        } else {
            None
        }
    }
}

/// A block address translation register, as the translation tables read it.
#[derive(Debug, Clone, Copy, PartialEq, Eq, Structural)]
pub struct Bat {
    /// Whether the translation applies in supervisor mode.
    pub supervisor_mode: bool,
    /// First logical address of the block.
    pub start: u32,
    /// Last logical address of the block.
    pub end: u32,
    /// First physical address of the block.
    pub physical_start: u32,
    /// Last physical address of the block.
    pub physical_end: u32,
}

/// How many pages a BAT maps: as many as both its logical and its physical page ranges hold.
pub open spec fn bat_pages(bat: Bat) -> int {
    let l = (bat.end >> 17u32) - (bat.start >> 17u32) + 1;
    let p = (bat.physical_end >> 17u32) - (bat.physical_start >> 17u32) + 1;
    let n = if l < p { l } else { p };
    if n < 0 { 0 } else { n }
}

/// `lut` with the pages of `bat` mapped: logical page `start + k` to physical page
/// `physical_start + k`.
pub open spec fn with_bat(lut: Seq<PageTranslation>, bat: Bat) -> Seq<PageTranslation> {
    let ls = (bat.start >> 17u32) as int;
    let ps = (bat.physical_start >> 17u32) as int;
    Seq::new(
        lut.len(),
        |l: int|
            if ls <= l < ls + bat_pages(bat) {
                PageTranslation((ps + (l - ls)) as u16)
            } else {
                lut[l]
            },
    )
}

/// The translations of the BATs among the first `n` of `bats` that apply in supervisor mode,
/// applied in order over pages that map nowhere.
pub open spec fn translations(bats: Seq<Bat>, n: int) -> Seq<PageTranslation>
    decreases n,
{
    if n <= 0 {
        Seq::new(PAGES_COUNT as nat, |l: int| PageTranslation(NO_MAPPING))
    } else if bats[n - 1].supervisor_mode {
        with_bat(translations(bats, n - 1), bats[n - 1])
    } else {
        translations(bats, n - 1)
    }
}

/// Where a page of the fast memory table points: a region and an offset into it.
#[derive(Debug, Clone, Copy, PartialEq, Eq, Structural)]
pub struct FastmemTarget {
    pub region: Region,
    pub offset: u32,
}

/// Where the physical page `p` lies, if it lies in a region.
pub open spec fn page_target(p: u32) -> Option<FastmemTarget> {
    match spec_region_of(p << 17u32) {
        Some((region, offset)) => Some(FastmemTarget { region, offset }),
        None => None,
    }
}

/// `lut` with the pages of `bat` pointed at their physical pages.
pub open spec fn with_bat_fastmem(lut: Seq<Option<FastmemTarget>>, bat: Bat) -> Seq<Option<FastmemTarget>> {
    let ls = (bat.start >> 17u32) as int;
    let ps = (bat.physical_start >> 17u32) as int;
    Seq::new(
        lut.len(),
        |l: int|
            if ls <= l < ls + bat_pages(bat) {
                page_target((ps + (l - ls)) as u32)
            } else {
                lut[l]
            },
    )
}

/// The fast memory table of the BATs among the first `n` of `bats` that apply in supervisor
/// mode, applied in order over pages that point nowhere.
pub open spec fn fastmem(bats: Seq<Bat>, n: int) -> Seq<Option<FastmemTarget>>
    decreases n,
{
    if n <= 0 {
        Seq::new(PAGES_COUNT as nat, |l: int| None)
    } else if bats[n - 1].supervisor_mode {
        with_bat_fastmem(fastmem(bats, n - 1), bats[n - 1])
    } else {
        fastmem(bats, n - 1)
    }
}

/// The physical fast memory table: every page of a region points at itself.
pub open spec fn physical_fastmem() -> Seq<Option<FastmemTarget>> {
    Seq::new(
        PAGES_COUNT as nat,
        |l: int|
            if (RAM_START >> 17u32) <= l <= (RAM_END >> 17u32) || (L2C_START >> 17u32) <= l <= (L2C_END
                >> 17u32) || (IPL_START >> 17u32) <= l <= (IPL_END >> 17u32) {
                page_target(l as u32)
            } else {
                None
            },
    )
}

/// A page number is below `PAGES_COUNT`.
proof fn lemma_page_bound(x: u32)
    ensures
        x >> 17u32 < 0x8000,
{
    assert(x >> 17u32 < 0x8000) by (bit_vector);
}

/// Maps the pages of `bat` in the translation table.
fn update_translation_lut_with(lut: &mut Vec<PageTranslation>, bat: &Bat)
    requires
        old(lut)@.len() == PAGES_COUNT,
    ensures
        final(lut)@ == with_bat(old(lut)@, *bat),
{
    let ls = bat.start >> 17u32;
    let le = bat.end >> 17u32;
    let ps = bat.physical_start >> 17u32;
    let pe = bat.physical_end >> 17u32;
    proof {
        lemma_page_bound(bat.start);
        lemma_page_bound(bat.end);
        lemma_page_bound(bat.physical_start);
        lemma_page_bound(bat.physical_end);
    }
    let ghost before = lut@;
    let mut l = ls;
    let mut p = ps;
    while l <= le && p <= pe
        invariant
            ls <= l,
            ps <= p,
            l - ls == p - ps,
            l - ls <= bat_pages(*bat),
            le < 0x8000,
            pe < 0x8000,
            lut@.len() == PAGES_COUNT,
            before.len() == PAGES_COUNT,
            ls == bat.start >> 17u32,
            ps == bat.physical_start >> 17u32,
            le == bat.end >> 17u32,
            pe == bat.physical_end >> 17u32,
            forall|j: int| 0 <= j < PAGES_COUNT ==> #[trigger] lut@[j] == (if ls <= j < l {
                PageTranslation((ps + (j - ls)) as u16)
            } else {
                before[j]
            }),
        decreases bat_pages(*bat) - (l - ls),
    {
        lut.set(l as usize, PageTranslation::new(Some(p as u16)));
        l += 1;
        p += 1;
    }
    assert(lut@ =~= with_bat(before, *bat));
}

/// Points the pages of `bat` at their physical pages in the fast memory table.
fn update_fastmem_lut_with_bat(lut: &mut Vec<Option<FastmemTarget>>, bat: &Bat)
    requires
        old(lut)@.len() == PAGES_COUNT,
    ensures
        final(lut)@ == with_bat_fastmem(old(lut)@, *bat),
{
    let ls = bat.start >> 17u32;
    let le = bat.end >> 17u32;
    let ps = bat.physical_start >> 17u32;
    let pe = bat.physical_end >> 17u32;
    proof {
        lemma_page_bound(bat.start);
        lemma_page_bound(bat.end);
        lemma_page_bound(bat.physical_start);
        lemma_page_bound(bat.physical_end);
    }
    let ghost before = lut@;
    let mut l = ls;
    let mut p = ps;
    while l <= le && p <= pe
        invariant
            ls <= l,
            ps <= p,
            l - ls == p - ps,
            l - ls <= bat_pages(*bat),
            le < 0x8000,
            pe < 0x8000,
            lut@.len() == PAGES_COUNT,
            before.len() == PAGES_COUNT,
            ls == bat.start >> 17u32,
            ps == bat.physical_start >> 17u32,
            le == bat.end >> 17u32,
            pe == bat.physical_end >> 17u32,
            forall|j: int| 0 <= j < PAGES_COUNT ==> #[trigger] lut@[j] == (if ls <= j < l {
                page_target((ps + (j - ls)) as u32)
            } else {
                before[j]
            }),
        decreases bat_pages(*bat) - (l - ls),
    {
        lut.set(l as usize, fastmem_target(p));
        l += 1;
        p += 1;
    }
    assert(lut@ =~= with_bat_fastmem(before, *bat));
}

/// Where the physical page `p` lies, if it lies in a region.
fn fastmem_target(p: u32) -> (r: Option<FastmemTarget>)
    ensures
        r == page_target(p),
{
    match Region::of(p << 17u32) {
        Some((region, offset)) => Some(FastmemTarget { region, offset }),
        None => None,
    }
}

/// Whether page `l` lies in RAM, the L2 cache or the IPL.
pub open spec fn in_physical_region(l: int) -> bool {
    (RAM_START >> 17u32) <= l <= (RAM_END >> 17u32) || (L2C_START >> 17u32) <= l <= (L2C_END >> 17u32)
        || (IPL_START >> 17u32) <= l <= (IPL_END >> 17u32)
}

/// Points every page of RAM, the L2 cache and the IPL at itself in the fast memory table;
/// other pages are left as they are.
fn update_fastmem_lut_physical(lut: &mut Vec<Option<FastmemTarget>>)
    requires
        old(lut)@.len() == PAGES_COUNT,
    ensures
        final(lut)@.len() == PAGES_COUNT,
        forall|j: int| 0 <= j < PAGES_COUNT ==> #[trigger] final(lut)@[j] == (if in_physical_region(j) {
            page_target(j as u32)
        } else {
            old(lut)@[j]
        }),
{
    let ghost before = lut@;
    let mut l: u32 = 0;
    while l < PAGES_COUNT as u32
        invariant
            l <= PAGES_COUNT,
            lut@.len() == PAGES_COUNT,
            before.len() == PAGES_COUNT,
            forall|j: int| 0 <= j < PAGES_COUNT ==> #[trigger] lut@[j] == (if j < l && in_physical_region(j) {
                page_target(j as u32)
            } else {
                before[j]
            }),
        decreases PAGES_COUNT - l,
    {
        let in_region = (RAM_START >> 17u32) <= l && l <= (RAM_END >> 17u32)
            || (L2C_START >> 17u32) <= l && l <= (L2C_END >> 17u32)
            || (IPL_START >> 17u32) <= l && l <= (IPL_END >> 17u32);
        if in_region {
            lut.set(l as usize, fastmem_target(l));
        }
        l += 1;
    }
}

/// `n` copies of `v`.
fn filled<T: Copy>(v: T, n: usize) -> (r: Vec<T>)
    ensures
        r@ == Seq::new(n as nat, |i: int| v),
{
    let mut r: Vec<T> = Vec::new();
    let mut i: usize = 0;
    while i < n
        invariant
            i <= n,
            r@ == Seq::new(i as nat, |j: int| v),
        decreases n - i,
    {
        r.push(v);
        proof {
            assert(r@ =~= Seq::new((i + 1) as nat, |j: int| v));
        }
        i += 1;
    }
    r
}

/// The memory of the system and its translation tables.
#[derive(Debug)]
pub struct Memory {
    ram: Vec<u8>,
    l2c: Vec<u8>,
    ipl: Vec<u8>,
    data_fastmem_lut_physical: Vec<Option<FastmemTarget>>,
    data_fastmem_lut_logical: Vec<Option<FastmemTarget>>,
    data_translation_lut: Vec<PageTranslation>,
    inst_translation_lut: Vec<PageTranslation>,
}

/// The three regions of memory.
pub struct Regions<'mem> {
    pub ram: &'mem [u8],
    pub l2c: &'mem [u8],
    pub ipl: &'mem [u8],
}

impl Memory {
    /// Whether the regions and tables have their sizes.
    pub closed spec fn wf(&self) -> bool {
        &&& self.ram@.len() == RAM_LEN
        &&& self.l2c@.len() == L2C_LEN
        &&& self.ipl@.len() == IPL_LEN
        &&& self.data_fastmem_lut_physical@.len() == PAGES_COUNT
        &&& self.data_fastmem_lut_logical@.len() == PAGES_COUNT
        &&& self.data_translation_lut@.len() == PAGES_COUNT
        &&& self.inst_translation_lut@.len() == PAGES_COUNT
    }

    /// The translation table for data accesses.
    pub closed spec fn data_translations(&self) -> Seq<PageTranslation> {
        self.data_translation_lut@
    }

    /// The translation table for instruction fetches.
    pub closed spec fn inst_translations(&self) -> Seq<PageTranslation> {
        self.inst_translation_lut@
    }

    /// The RAM.
    pub closed spec fn spec_ram(&self) -> Seq<u8> {
        self.ram@
    }

    /// The L2 cache.
    pub closed spec fn spec_l2c(&self) -> Seq<u8> {
        self.l2c@
    }

    /// The IPL.
    pub closed spec fn spec_ipl(&self) -> Seq<u8> {
        self.ipl@
    }

    /// The fast memory table for physical data addresses.
    pub closed spec fn spec_fastmem_physical(&self) -> Seq<Option<FastmemTarget>> {
        self.data_fastmem_lut_physical@
    }

    /// The fast memory table for logical data addresses.
    pub closed spec fn spec_fastmem_logical(&self) -> Seq<Option<FastmemTarget>> {
        self.data_fastmem_lut_logical@
    }

    /// Memory with zeroed RAM and L2 cache, the given IPL, no logical mappings, and every
    /// physical page of a region in the physical fast memory table.
    pub fn new(ipl_data: &[u8]) -> (m: Memory)
        requires
            ipl_data@.len() == IPL_LEN,
        ensures
            m.wf(),
            m.spec_ram() == Seq::new(RAM_LEN as nat, |i: int| 0u8),
            m.spec_l2c() == Seq::new(L2C_LEN as nat, |i: int| 0u8),
            m.spec_ipl() == ipl_data@,
            m.data_translations() == Seq::new(PAGES_COUNT as nat, |l: int| PageTranslation(NO_MAPPING)),
            m.inst_translations() == Seq::new(PAGES_COUNT as nat, |l: int| PageTranslation(NO_MAPPING)),
            m.spec_fastmem_logical() == Seq::new(PAGES_COUNT as nat, |l: int| None::<FastmemTarget>),
            m.spec_fastmem_physical() == physical_fastmem(),
    {
        let ram = filled(0u8, RAM_LEN);
        let l2c = filled(0u8, L2C_LEN);
        let mut ipl: Vec<u8> = Vec::new();
        let mut i: usize = 0;
        while i < ipl_data.len()
            invariant
                i <= ipl_data@.len(),
                ipl@ == ipl_data@.take(i as int),
            decreases ipl_data.len() - i,
        {
            ipl.push(ipl_data[i]);
            proof {
                assert(ipl@ =~= ipl_data@.take(i + 1));
            }
            i += 1;
        }
        assert(ipl@ =~= ipl_data@);
        let mut physical: Vec<Option<FastmemTarget>> = filled(None, PAGES_COUNT);
        update_fastmem_lut_physical(&mut physical);
        assert(physical@ =~= physical_fastmem());
        Memory {
            ram,
            l2c,
            ipl,
            data_fastmem_lut_physical: physical,
            data_fastmem_lut_logical: filled(None, PAGES_COUNT),
            data_translation_lut: filled(PageTranslation(NO_MAPPING), PAGES_COUNT),
            inst_translation_lut: filled(PageTranslation(NO_MAPPING), PAGES_COUNT),
        }
    }

    /// The RAM.
    pub fn ram(&self) -> (r: &[u8])
        ensures
            r@ == self.spec_ram(),
    {
        self.ram.as_slice()
    }

    /// The L2 cache.
    pub fn l2c(&self) -> (r: &[u8])
        ensures
            r@ == self.spec_l2c(),
    {
        self.l2c.as_slice()
    }

    /// The IPL.
    pub fn ipl(&self) -> (r: &[u8])
        ensures
            r@ == self.spec_ipl(),
    {
        self.ipl.as_slice()
    }

    /// The three regions.
    pub fn regions(&self) -> (r: Regions<'_>)
        ensures
            r.ram@ == self.spec_ram(),
            r.l2c@ == self.spec_l2c(),
            r.ipl@ == self.spec_ipl(),
    {
        Regions { ram: self.ram.as_slice(), l2c: self.l2c.as_slice(), ipl: self.ipl.as_slice() }
    }

    /// Rebuilds the data translation and logical fast memory tables from the data BATs: every
    /// page maps nowhere, then each BAT that applies in supervisor mode maps its pages, in
    /// order.
    pub fn build_data_bat_lut(&mut self, dbats: &[Bat; 4])
        requires
            old(self).wf(),
        ensures
            final(self).wf(),
            final(self).data_translations() == translations(dbats@, 4),
            final(self).spec_fastmem_logical() == fastmem(dbats@, 4),
            final(self).inst_translations() == old(self).inst_translations(),
            final(self).spec_fastmem_physical() == old(self).spec_fastmem_physical(),
            final(self).spec_ram() == old(self).spec_ram(),
            final(self).spec_l2c() == old(self).spec_l2c(),
            final(self).spec_ipl() == old(self).spec_ipl(),
    {
        self.data_fastmem_lut_logical = filled(None, PAGES_COUNT);
        self.data_translation_lut = filled(PageTranslation(NO_MAPPING), PAGES_COUNT);
        proof {
            assert(self.data_translation_lut@ =~= translations(dbats@, 0));
            assert(self.data_fastmem_lut_logical@ =~= fastmem(dbats@, 0));
        }
        let mut i: usize = 0;
        while i < 4
            invariant
                i <= 4,
                self.wf(),
                self.data_translation_lut@ == translations(dbats@, i as int),
                self.data_fastmem_lut_logical@ == fastmem(dbats@, i as int),
                self.inst_translation_lut@ == old(self).inst_translation_lut@,
                self.data_fastmem_lut_physical@ == old(self).data_fastmem_lut_physical@,
                self.ram@ == old(self).ram@,
                self.l2c@ == old(self).l2c@,
                self.ipl@ == old(self).ipl@,
            decreases 4 - i,
        {
            let bat = dbats[i];
            if bat.supervisor_mode {
                update_translation_lut_with(&mut self.data_translation_lut, &bat);
                update_fastmem_lut_with_bat(&mut self.data_fastmem_lut_logical, &bat);
            }
            i += 1;
        }
    }

    /// Rebuilds the instruction translation table from the instruction BATs.
    pub fn build_instr_bat_lut(&mut self, ibats: &[Bat; 4])
        requires
            old(self).wf(),
        ensures
            final(self).wf(),
            final(self).inst_translations() == translations(ibats@, 4),
            final(self).data_translations() == old(self).data_translations(),
            final(self).spec_fastmem_logical() == old(self).spec_fastmem_logical(),
            final(self).spec_fastmem_physical() == old(self).spec_fastmem_physical(),
            final(self).spec_ram() == old(self).spec_ram(),
            final(self).spec_l2c() == old(self).spec_l2c(),
            final(self).spec_ipl() == old(self).spec_ipl(),
    {
        self.inst_translation_lut = filled(PageTranslation(NO_MAPPING), PAGES_COUNT);
        proof {
            assert(self.inst_translation_lut@ =~= translations(ibats@, 0));
        }
        let mut i: usize = 0;
        while i < 4
            invariant
                i <= 4,
                self.wf(),
                self.inst_translation_lut@ == translations(ibats@, i as int),
                self.data_translation_lut@ == old(self).data_translation_lut@,
                self.data_fastmem_lut_logical@ == old(self).data_fastmem_lut_logical@,
                self.data_fastmem_lut_physical@ == old(self).data_fastmem_lut_physical@,
                self.ram@ == old(self).ram@,
                self.l2c@ == old(self).l2c@,
                self.ipl@ == old(self).ipl@,
            decreases 4 - i,
        {
            let bat = ibats[i];
            if bat.supervisor_mode {
                update_translation_lut_with(&mut self.inst_translation_lut, &bat);
            }
            i += 1;
        }
    }

    /// Rebuilds every translation table from the data and instruction BATs.
    pub fn build_bat_lut(&mut self, dbats: &[Bat; 4], ibats: &[Bat; 4])
        requires
            old(self).wf(),
        ensures
            final(self).wf(),
            final(self).data_translations() == translations(dbats@, 4),
            final(self).spec_fastmem_logical() == fastmem(dbats@, 4),
            final(self).inst_translations() == translations(ibats@, 4),
            final(self).spec_fastmem_physical() == old(self).spec_fastmem_physical(),
            final(self).spec_ram() == old(self).spec_ram(),
    {
        self.build_data_bat_lut(dbats);
        self.build_instr_bat_lut(ibats);
    }

    /// The physical address of the logical data address `addr`, if its page is mapped.
    pub fn translate_data_addr(&self, addr: u32) -> (r: Option<u32>)
        requires
            self.wf(),
        ensures
            r == match self.data_translations()[(addr >> 17u32) as int].spec_base() {
                Some(b) => Some(with_page(addr, b)),
                None => None,
            },
    {
        let page = addr >> 17u32;
        proof {
            lemma_page_bound(addr);
        }
        self.data_translation_lut[page as usize].translate(addr)
    }

    /// The physical address of the logical instruction address `addr`, if its page is mapped.
    pub fn translate_inst_addr(&self, addr: u32) -> (r: Option<u32>)
        requires
            self.wf(),
        ensures
            r == match self.inst_translations()[(addr >> 17u32) as int].spec_base() {
                Some(b) => Some(with_page(addr, b)),
                None => None,
            },
    {
        let page = addr >> 17u32;
        proof {
            lemma_page_bound(addr);
        }
        self.inst_translation_lut[page as usize].translate(addr)
    }

    /// The fast memory table for logical data addresses.
    pub fn data_fastmem_lut_logical(&self) -> (r: &[Option<FastmemTarget>])
        ensures
            r@ == self.spec_fastmem_logical(),
    {
        self.data_fastmem_lut_logical.as_slice()
    }

    /// The fast memory table for physical data addresses.
    pub fn data_fastmem_lut_physical(&self) -> (r: &[Option<FastmemTarget>])
        ensures
            r@ == self.spec_fastmem_physical(),
    {
        self.data_fastmem_lut_physical.as_slice()
    }
}

/// A translated address keeps its offset in the page: its low 17 bits.
pub proof fn law_translate_keeps_offset(offset: u32, base: u16)
    ensures
        with_page(offset, base) & 0x1FFFF == offset & 0x1FFFF,
        (with_page(offset, base) >> 17u32) == (base as u32) & 0x7FFF,
{
    assert((((offset & 0x1FFFF) | ((base as u32) << 17u32)) & 0x1FFFF == offset & 0x1FFFF) && ((((offset
        & 0x1FFFF) | ((base as u32) << 17u32)) >> 17u32) == (base as u32) & 0x7FFF)) by (bit_vector);
}

} // verus!

verus! {

/// The physical fast memory table, page by page (a page covers the 128 KiB from `p << 17`):
/// the RAM pages up to 0xBF point at RAM at `p << 17`, page 0x7000 at the start of the L2
/// cache, the pages from 0x7FF8 at the IPL at `(p << 17) - 0xFFF0_0000`, and no other page
/// points anywhere.
pub proof fn law_physical_fastmem_pages(p: int)
    requires
        0 <= p < PAGES_COUNT,
    ensures
        physical_fastmem()[p] == (if p <= 0xBF {
            Some(FastmemTarget { region: Region::Ram, offset: (p * 0x2_0000) as u32 })
        } else if p == 0x7000 {
            Some(FastmemTarget { region: Region::L2c, offset: 0 })
        } else if p >= 0x7FF8 {
            Some(FastmemTarget { region: Region::Ipl, offset: (p * 0x2_0000 - 0xFFF0_0000) as u32 })
        } else {
            None
        }),
{
    vstd::arithmetic::power2::lemma2_to64();
    vstd::bits::lemma_u32_shr_is_div(RAM_START, 17);
    vstd::bits::lemma_u32_shr_is_div(RAM_END, 17);
    vstd::bits::lemma_u32_shr_is_div(L2C_START, 17);
    vstd::bits::lemma_u32_shr_is_div(L2C_END, 17);
    vstd::bits::lemma_u32_shr_is_div(IPL_START, 17);
    vstd::bits::lemma_u32_shr_is_div(IPL_END, 17);
    vstd::bits::lemma_u32_shl_is_mul(p as u32, 17);
    assert((p as u32) << 17u32 == p * 0x2_0000);
}

} // verus!

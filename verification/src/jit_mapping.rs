//! Where compiled blocks of the CPU recompiler are mapped: a table from instruction addresses
//! to blocks, indexed by the address's word in three levels.
use std::collections::HashMap;
use vstd::prelude::*;

verus! {

broadcast use vstd::std_specs::hash::group_hash_axioms;

/// Bits of the word address that select the first level.
pub const MAP_TBL_L0_BITS: u32 = 12;

/// Bits of the word address that select the second level.
pub const MAP_TBL_L1_BITS: u32 = 8;

/// Bits of the word address that select the third level.
pub const MAP_TBL_L2_BITS: u32 = 10;

/// The three table indices of an instruction address: the top 12, middle 8 and low 10 bits
/// of its word address.
pub open spec fn spec_mapping_idx(addr: u32) -> (u32, u32, u32) {
    let base = addr >> 2u32;
    ((base >> 18u32) & 0xFFF, (base >> 10u32) & 0xFF, base & 0x3FF)
}

/// The three table indices of an instruction address.
pub fn addr_to_mapping_idx(addr: u32) -> (r: (usize, usize, usize))
    ensures
        r.0 == spec_mapping_idx(addr).0,
        r.1 == spec_mapping_idx(addr).1,
        r.2 == spec_mapping_idx(addr).2,
        r.0 < 4096,
        r.1 < 256,
        r.2 < 1024,
{
    let base = addr >> 2u32;
    let i0 = (base >> 18u32) & 0xFFF;
    let i1 = (base >> 10u32) & 0xFF;
    let i2 = base & 0x3FF;
    assert(i0 < 4096 && i1 < 256 && i2 < 1024) by (bit_vector)
        requires
            i0 == (base >> 18u32) & 0xFFF,
            i1 == (base >> 10u32) & 0xFF,
            i2 == base & 0x3FF,
    ;
    (i0 as usize, i1 as usize, i2 as usize)
}

/// Two addresses share their table indices exactly when they lie in the same word.
pub proof fn law_mapping_idx_injective(a: u32, b: u32)
    ensures
        spec_mapping_idx(a) == spec_mapping_idx(b) <==> a >> 2u32 == b >> 2u32,
{
    let x = a >> 2u32;
    let y = b >> 2u32;
    assert(((x >> 18u32) & 0xFFF == (y >> 18u32) & 0xFFF && (x >> 10u32) & 0xFF == (y >> 10u32) & 0xFF
        && x & 0x3FF == y & 0x3FF) <==> x == y) by (bit_vector)
        requires
            x == a >> 2u32,
            y == b >> 2u32,
    ;
}

/// The page base of an address for dependency tracking: its 4 KiB page number.
pub open spec fn spec_deps_page_base(addr: u32) -> u32 {
    addr >> 12u32
}

/// The page number of an address.
pub fn deps_page_base(addr: u32) -> (r: u32)
    ensures
        r == spec_deps_page_base(addr),
{
    addr >> 12u32
}

/// The two dependency table indices of an address: the top 12 and low 8 bits of its page
/// number.
pub fn addr_to_deps_idx(addr: u32) -> (r: (usize, usize))
    ensures
        r.0 == (spec_deps_page_base(addr) >> 8u32) & 0xFFF,
        r.1 == spec_deps_page_base(addr) & 0xFF,
{
    let base = deps_page_base(addr);
    (((base >> 8u32) & 0xFFF) as usize, (base & 0xFF) as usize)
}

/// Identifier for a block in the block storage.
#[derive(Debug, Clone, Copy, PartialEq, Eq, Structural)]
pub struct BlockId(pub usize);

/// A block mapped at an address, and the length in bytes of the code it covers.
#[derive(Debug, Clone, Copy, PartialEq, Eq, Structural)]
pub struct Mapping {
    pub id: BlockId,
    pub length: u32,
}

/// The word address an instruction address is kept under.
pub open spec fn word_of(addr: u32) -> u32 {
    addr >> 2u32
}

/// The table of block mappings, from instruction addresses to blocks.
#[derive(Debug)]
pub struct Table {
    entries: HashMap<u32, Mapping>,
}

impl Table {
    /// The mappings, by word address.
    pub closed spec fn view(&self) -> Map<u32, Mapping> {
        self.entries@
    }

    /// An empty table.
    pub fn new() -> (t: Table)
        ensures
            t.view() == Map::<u32, Mapping>::empty(),
    {
        Table { entries: HashMap::new() }
    }

    /// Maps the word of `addr` to `mapping`.
    pub fn insert(&mut self, addr: u32, mapping: Mapping)
        ensures
            final(self).view() == old(self).view().insert(word_of(addr), mapping),
    {
        self.entries.insert(addr >> 2u32, mapping);
    }

    /// Unmaps the word of `addr`, giving back what was mapped there.
    pub fn remove(&mut self, addr: u32) -> (r: Option<Mapping>)
        ensures
            final(self).view() == old(self).view().remove(word_of(addr)),
            r == (if old(self).view().contains_key(word_of(addr)) {
                Some(old(self).view()[word_of(addr)])
            } else {
                None
            }),
    {
        let key = addr >> 2u32;
        self.entries.remove(&key)
    }

    /// What is mapped at the word of `addr`.
    pub fn get(&self, addr: u32) -> (r: Option<&Mapping>)
        ensures
            r == (if self.view().contains_key(word_of(addr)) {
                Some(&self.view()[word_of(addr)])
            } else {
                None
            }),
    {
        let key = addr >> 2u32;
        self.entries.get(&key)
    }
}

/// A lookup after an insertion finds what was inserted at that word, and what was there
/// before at any other word.
pub proof fn law_table_get_after_insert(t: Map<u32, Mapping>, a: u32, m: Mapping, b: u32)
    ensures
        word_of(a) == word_of(b) ==> t.insert(word_of(a), m).contains_key(word_of(b))
            && t.insert(word_of(a), m)[word_of(b)] == m,
        word_of(a) != word_of(b) ==> t.insert(word_of(a), m).contains_key(word_of(b)) == t.contains_key(word_of(b))
            && t.insert(word_of(a), m)[word_of(b)] == t[word_of(b)],
{
}

/// Removing a mapping leaves nothing at that word and every other word as it was.
pub proof fn law_table_remove(t: Map<u32, Mapping>, a: u32, b: u32)
    ensures
        !t.remove(word_of(a)).contains_key(word_of(a)),
        word_of(a) != word_of(b) ==> t.remove(word_of(a)).contains_key(word_of(b)) == t.contains_key(word_of(b))
            && t.remove(word_of(a))[word_of(b)] == t[word_of(b)],
{
}


/// The three instruction cache indices of an address: the top 11, middle 8 and low 8 bits of
/// its 32-byte line number.
pub fn addr_to_icache_idx(addr: u32) -> (r: (usize, usize, usize))
    ensures
        r.0 == ((addr >> 5u32) >> 16u32) & 0x7FF,
        r.1 == ((addr >> 5u32) >> 8u32) & 0xFF,
        r.2 == (addr >> 5u32) & 0xFF,
{
    let base = addr >> 5u32;
    (((base >> 16u32) & 0x7FF) as usize, ((base >> 8u32) & 0xFF) as usize, (base & 0xFF) as usize)
}

/// Whether `b` is a breakpoint after `pc` with none of `breakpoints` between them, or
/// `u32::MAX` when none lies after `pc` before it.
pub open spec fn is_closest_breakpoint(pc: u32, breakpoints: Seq<u32>, b: u32) -> bool {
    &&& (b == u32::MAX || (breakpoints.contains(b) && b > pc))
    &&& forall|i: int| 0 <= i < breakpoints.len() && breakpoints[i] > pc ==> b <= #[trigger] breakpoints[i]
}

/// The nearest breakpoint after `pc`, or `u32::MAX` when there is none.
pub fn closest_breakpoint(pc: u32, breakpoints: &[u32]) -> (r: u32)
    ensures
        is_closest_breakpoint(pc, breakpoints@, r),
{
    let mut closest: u32 = pc.saturating_add(u32::MAX);
    let mut closest_distance: u32 = closest - pc;
    let mut i: usize = 0;
    while i < breakpoints.len()
        invariant
            i <= breakpoints@.len(),
            closest >= pc,
            closest_distance == closest - pc,
            closest == u32::MAX || (breakpoints@.contains(closest) && closest > pc),
            forall|j: int| 0 <= j < i && breakpoints@[j] > pc ==> closest <= #[trigger] breakpoints@[j],
        decreases breakpoints.len() - i,
    {
        let breakpoint = breakpoints[i];
        match breakpoint.checked_sub(pc) {
            Some(distance) => {
                if distance <= closest_distance && distance != 0 {
                    closest = breakpoint;
                    closest_distance = distance;
                    assert(breakpoints@[i as int] == breakpoint);
                }
            },
            None => {},
        }
        i += 1;
    }
    closest
}
} // verus!

//! The compiled blocks of the CPU recompiler: where each is mapped, and which 4 KiB pages each
//! depends on, so that a write to a page invalidates the blocks compiled from it.
use crate::jit_mapping::{word_of, BlockId, Mapping, Table};
use indexmap::IndexSet;
use std::collections::HashMap;
use vstd::prelude::*;

verus! {

broadcast use vstd::std_specs::hash::group_hash_axioms;

/// The addresses of the blocks that depend on each page, in the order they were listed.
pub type Deps = Map<u32, Seq<u32>>;

/// The blocks listed for `page`, none where the page has no list.
pub open spec fn deps_list(d: Deps, page: u32) -> Seq<u32> {
    if d.contains_key(page) {
        d[page]
    } else {
        seq![]
    }
}

/// `l` with `a` added at the end, unless it is there already.
pub open spec fn set_insert(l: Seq<u32>, a: u32) -> Seq<u32> {
    if l.contains(a) {
        l
    } else {
        l.push(a)
    }
}

/// The first index from `i` on where `l` holds `a`, or -1.
pub open spec fn first_index_from(l: Seq<u32>, a: u32, i: int) -> int
    decreases l.len() - i,
{
    if i < 0 || i >= l.len() {
        -1
    } else if l[i] == a {
        i
    } else {
        first_index_from(l, a, i + 1)
    }
}

/// `l` with `a` removed by moving its last element into its place.
pub open spec fn set_swap_remove(l: Seq<u32>, a: u32) -> Seq<u32> {
    let i = first_index_from(l, a, 0);
    if i < 0 {
        l
    } else {
        l.update(i, l.last()).drop_last()
    }
}

/// The `k`th page on from the page of `addr`.
pub open spec fn page_at(addr: u32, k: int) -> u32 {
    ((addr >> 12u32) + k) as u32
}

/// The last page that a block of `length` bytes at `addr` reaches: that of its end address,
/// `addr + length`, or the last page of all where that end lies past the address space.
pub open spec fn last_page(addr: u32, length: u32) -> u32 {
    if addr as int + length <= u32::MAX {
        ((addr as int + length) as u32) >> 12u32
    } else {
        0xF_FFFFu32
    }
}

/// How many pages a block of `length` bytes at `addr` reaches: those from its start page to
/// its last page.
pub open spec fn page_count(addr: u32, length: u32) -> int {
    last_page(addr, length) - (addr >> 12u32) + 1
}

/// A higher address is on the same page or a later one.
proof fn lemma_page_monotone(a: u32, b: u32)
    requires
        a <= b,
    ensures
        a >> 12u32 <= b >> 12u32,
        b >> 12u32 <= 0xF_FFFF,
{
    assert((a <= b ==> a >> 12u32 <= b >> 12u32) && b >> 12u32 <= 0xF_FFFF) by (bit_vector);
}

/// The pages of a block run from its start page to its last page, a run of at most 2^20.
proof fn lemma_page_span(addr: u32, length: u32)
    ensures
        addr >> 12u32 <= last_page(addr, length) <= 0xF_FFFF,
        page_count(addr, length) >= 1,
{
    if addr as int + length <= u32::MAX {
        lemma_page_monotone(addr, (addr as int + length) as u32);
    } else {
        lemma_page_monotone(addr, u32::MAX);
    }
}

/// `d` with `addr` listed for the first `k` pages on from the page of `addr`.
pub open spec fn deps_insert_pages(d: Deps, addr: u32, k: int) -> Deps
    decreases k,
{
    if k <= 0 {
        d
    } else {
        let d1 = deps_insert_pages(d, addr, k - 1);
        let p = page_at(addr, k - 1);
        d1.insert(p, set_insert(deps_list(d1, p), addr))
    }
}

/// `d` with `addr` taken off the lists of the first `k` pages on from the page of `addr`.
pub open spec fn deps_remove_pages(d: Deps, addr: u32, k: int) -> Deps
    decreases k,
{
    if k <= 0 {
        d
    } else {
        let d1 = deps_remove_pages(d, addr, k - 1);
        let p = page_at(addr, k - 1);
        d1.insert(p, set_swap_remove(deps_list(d1, p), addr))
    }
}

/// The mappings and page dependencies of one address space.
pub type Space = (Map<u32, Mapping>, Deps);

/// Whether the block mapped at `dep` covers `target`: `target` lies from `dep` up to `dep`
/// plus the block's length (wrapping), both ends included.
pub open spec fn covers(dep: u32, length: u32, target: u32) -> bool {
    dep <= target <= ((dep as int + length) % 0x1_0000_0000)
}

/// Removes the mapping at `dep` from `s` if it covers `target`: its address leaves the lists
/// of the pages it reaches. Fails where nothing is mapped at `dep`.
pub open spec fn remove_if_covers(s: Space, dep: u32, target: u32) -> Result<(Space, Option<Mapping>), u32> {
    let (mappings, deps) = s;
    if !mappings.contains_key(word_of(dep)) {
        Err(dep)
    } else {
        let m = mappings[word_of(dep)];
        if covers(dep, m.length, target) {
            Ok(((mappings.remove(word_of(dep)), deps_remove_pages(deps, dep, page_count(dep, m.length))), Some(m)))
        } else {
            Ok((s, None))
        }
    }
}

/// Invalidates, for the first `n` of `list`, the blocks mapped there that cover `target`,
/// collecting their identifiers. Fails at the first address with nothing mapped.
pub open spec fn invalidate_prefix(s: Space, list: Seq<u32>, target: u32, n: int) -> Result<(Space, Seq<BlockId>), u32>
    decreases n,
{
    if n <= 0 {
        Ok((s, seq![]))
    } else {
        match invalidate_prefix(s, list, target, n - 1) {
            Err(e) => Err(e),
            Ok((s1, ids)) => match remove_if_covers(s1, list[n - 1], target) {
                Err(e) => Err(e),
                Ok((s2, None)) => Ok((s2, ids)),
                Ok((s2, Some(m))) => Ok((s2, ids.push(m.id))),
            },
        }
    }
}

/// Invalidates the blocks that depend on the page of `target` and cover it.
pub open spec fn spec_invalidate(s: Space, target: u32) -> Result<(Space, Seq<BlockId>), u32> {
    let list = deps_list(s.1, target >> 12u32);
    invalidate_prefix(s, list, target, list.len() as int)
}

#[verifier::external_type_specification]
#[verifier::external_body]
#[verifier::reject_recursive_types(T)]
#[verifier::reject_recursive_types(S)]
pub struct ExIndexSet<T, S>(IndexSet<T, S>);

/// The addresses that an index set holds, in their order.
pub uninterp spec fn index_set_items(s: IndexSet<u32>) -> Seq<u32>;

/// `IndexSet::new`: an empty set.
#[verifier::external_body]
fn index_set_new() -> (s: IndexSet<u32>)
    ensures
        index_set_items(s) == Seq::<u32>::empty(),
{
    IndexSet::new()
}

/// `IndexSet::insert`: appends `a` at the end, unless the set holds it already, in which
/// case the set and its order stay as they are.
#[verifier::external_body]
fn index_set_insert(s: &mut IndexSet<u32>, a: u32)
    ensures
        index_set_items(*final(s)) == set_insert(index_set_items(*old(s)), a),
{
    s.insert(a);
}

/// `IndexSet::swap_remove`: removes `a`, if the set holds it, by moving the last address
/// into its place.
#[verifier::external_body]
fn index_set_swap_remove(s: &mut IndexSet<u32>, a: u32)
    ensures
        index_set_items(*final(s)) == set_swap_remove(index_set_items(*old(s)), a),
{
    s.swap_remove(&a);
}

/// The addresses of the set in their order, copied out through `IndexSet::iter`.
#[verifier::external_body]
fn index_set_to_vec(s: &IndexSet<u32>) -> (v: Vec<u32>)
    ensures
        v@ == index_set_items(*s),
{
    s.iter().copied().collect()
}

/// The blocks that depend on each page.
#[derive(Debug)]
pub struct DepsTable {
    pages: HashMap<u32, IndexSet<u32>>,
}

impl DepsTable {
    /// The lists, by page.
    pub closed spec fn view(&self) -> Deps {
        self.pages@.map_values(|v: IndexSet<u32>| index_set_items(v))
    }

    /// A table with no lists.
    pub fn new() -> (r: DepsTable)
        ensures
            r.view() == Map::<u32, Seq<u32>>::empty(),
    {
        let r = DepsTable { pages: HashMap::new() };
        assert(r.view() =~= Map::<u32, Seq<u32>>::empty());
        r
    }

    /// Takes the list of `page` out of the table.
    fn take(&mut self, page: u32) -> (r: IndexSet<u32>)
        ensures
            index_set_items(r) == deps_list(old(self).view(), page),
            final(self).view() == old(self).view().remove(page),
    {
        let r = match self.pages.remove(&page) {
            Some(v) => v,
            None => index_set_new(),
        };
        assert(self.view() =~= old(self).view().remove(page));
        r
    }

    /// Puts `list` back as the list of `page`.
    fn put(&mut self, page: u32, list: IndexSet<u32>)
        ensures
            final(self).view() == old(self).view().insert(page, index_set_items(list)),
    {
        let ghost l = index_set_items(list);
        self.pages.insert(page, list);
        assert(self.view() =~= old(self).view().insert(page, l));
    }

    /// A copy of the list of `page`.
    pub fn list(&self, page: u32) -> (r: Vec<u32>)
        ensures
            r@ == deps_list(self.view(), page),
    {
        match self.pages.get(&page) {
            Some(v) => index_set_to_vec(v),
            None => Vec::new(),
        }
    }

    /// Lists `addr` for `page`, unless it is listed already.
    pub fn insert(&mut self, page: u32, addr: u32)
        ensures
            final(self).view() == old(self).view().insert(page, set_insert(deps_list(old(self).view(), page), addr)),
    {
        let mut list = self.take(page);
        index_set_insert(&mut list, addr);
        self.put(page, list);
    }

    /// Takes `addr` off the list of `page`, moving the last address into its place.
    pub fn swap_remove(&mut self, page: u32, addr: u32)
        ensures
            final(self).view() == old(self).view().insert(page, set_swap_remove(deps_list(old(self).view(), page), addr)),
    {
        let mut list = self.take(page);
        index_set_swap_remove(&mut list, addr);
        self.put(page, list);
    }

    /// Whether `page` has a list.
    pub fn has(&self, page: u32) -> (r: bool)
        ensures
            r == self.view().contains_key(page),
    {
        self.pages.contains_key(&page)
    }
}

/// The last page that a block of `length` bytes at `addr` reaches.
fn last_page_of(addr: u32, length: u32) -> (r: u32)
    ensures
        r == last_page(addr, length),
        addr >> 12u32 <= r <= 0xF_FFFF,
{
    proof {
        lemma_page_span(addr, length);
    }
    if addr <= u32::MAX - length {
        (addr + length) >> 12u32
    } else {
        0xF_FFFF
    }
}

/// The mappings and page dependencies of one address space.
#[derive(Debug)]
pub struct MappingSpace {
    mappings: Table,
    deps: DepsTable,
}

impl MappingSpace {
    /// The mappings and dependencies.
    pub closed spec fn view(&self) -> Space {
        (self.mappings.view(), self.deps.view())
    }

    /// A space with nothing mapped.
    pub fn new() -> (r: MappingSpace)
        ensures
            r.view() == (Map::<u32, Mapping>::empty(), Map::<u32, Seq<u32>>::empty()),
    {
        MappingSpace { mappings: Table::new(), deps: DepsTable::new() }
    }

    /// Maps `mapping` at `addr`, and lists `addr` for every page the block reaches.
    pub fn insert_mapping(&mut self, addr: u32, mapping: Mapping)
        ensures
            final(self).view().0 == old(self).view().0.insert(word_of(addr), mapping),
            final(self).view().1 == deps_insert_pages(old(self).view().1, addr, page_count(addr, mapping.length)),
    {
        self.mappings.insert(addr, mapping);
        let first = addr >> 12u32;
        let last = last_page_of(addr, mapping.length);
        let ghost d0 = self.deps.view();
        let mut page = first;
        while page <= last
            invariant
                first == addr >> 12u32,
                last == last_page(addr, mapping.length),
                first <= page <= last + 1,
                last <= 0xF_FFFF,
                d0 == old(self).view().1,
                self.mappings.view() == old(self).view().0.insert(word_of(addr), mapping),
                self.deps.view() == deps_insert_pages(d0, addr, page - first),
            decreases last + 1 - page,
        {
            assert(page_at(addr, page - first) == page);
            self.deps.insert(page, addr);
            page += 1;
        }
    }

    /// Removes the mapping at `dep` if it covers `target`, taking `dep` off the lists of the
    /// pages it steps over. Fails where nothing is mapped at `dep`.
    pub fn remove_mapping_if_contains(&mut self, dep: u32, target: u32) -> (r: Result<Option<Mapping>, u32>)
        ensures
            match remove_if_covers(old(self).view(), dep, target) {
                Err(e) => r == Err::<Option<Mapping>, u32>(e) && final(self).view() == old(self).view(),
                Ok((s, m)) => r == Ok::<Option<Mapping>, u32>(m) && final(self).view() == s,
            },
    {
        let mapping = match self.mappings.get(dep) {
            Some(m) => *m,
            None => return Err(dep),
        };
        let end = dep.wrapping_add(mapping.length);
        if !(dep <= target && target <= end) {
            return Ok(None);
        }
        let first = dep >> 12u32;
        let last = last_page_of(dep, mapping.length);
        let ghost d0 = self.deps.view();
        let ghost m0 = self.mappings.view();
        let mut page = first;
        while page <= last
            invariant
                first == dep >> 12u32,
                last == last_page(dep, mapping.length),
                first <= page <= last + 1,
                last <= 0xF_FFFF,
                d0 == old(self).view().1,
                self.mappings.view() == m0,
                m0 == old(self).view().0,
                self.deps.view() == deps_remove_pages(d0, dep, page - first),
            decreases last + 1 - page,
        {
            assert(page_at(dep, page - first) == page);
            self.deps.swap_remove(page, dep);
            page += 1;
        }
        let removed = self.mappings.remove(dep);
        Ok(removed)
    }

    /// The mapping at `addr`.
    pub fn get_mapping(&self, addr: u32) -> (r: Option<Mapping>)
        ensures
            r == (if self.view().0.contains_key(word_of(addr)) { Some(self.view().0[word_of(addr)]) } else { None }),
    {
        match self.mappings.get(addr) {
            Some(m) => Some(*m),
            None => None,
        }
    }

    /// Invalidates the blocks that depend on the page of `target` and cover it, giving their
    /// identifiers. Every address listed for the page must have a mapping.
    pub fn invalidate(&mut self, target: u32) -> (r: Vec<BlockId>)
        requires
            spec_invalidate(old(self).view(), target) is Ok,
        ensures
            spec_invalidate(old(self).view(), target) == Ok::<(Space, Seq<BlockId>), u32>((final(self).view(), r@)),
    {
        let page = target >> 12u32;
        let list = self.deps.list(page);
        let ghost s0 = self.view();
        let mut ids: Vec<BlockId> = Vec::new();
        let mut i: usize = 0;
        while i < list.len()
            invariant
                i <= list@.len(),
                s0 == old(self).view(),
                list@ == deps_list(s0.1, page),
                page == target >> 12u32,
                spec_invalidate(s0, target) is Ok,
                invalidate_prefix(s0, list@, target, i as int) == Ok::<(Space, Seq<BlockId>), u32>((self.view(), ids@)),
            decreases list.len() - i,
        {
            let dep = list[i];
            match self.remove_mapping_if_contains(dep, target) {
                Err(e) => {
                    proof {
                        assert(invalidate_prefix(s0, list@, target, i as int + 1) == Err::<(Space, Seq<BlockId>), u32>(e));
                        lemma_invalidate_err_stays(s0, list@, target, i as int + 1);
                    }
                    assert(false);
                },
                Ok(None) => {},
                Ok(Some(m)) => {
                    ids.push(m.id);
                },
            }
            i += 1;
        }
        ids
    }
}

/// Once invalidation has failed, it stays failed with the same address.
proof fn lemma_invalidate_err_stays(s: Space, list: Seq<u32>, target: u32, n: int)
    requires
        0 <= n <= list.len(),
        invalidate_prefix(s, list, target, n) is Err,
    ensures
        invalidate_prefix(s, list, target, list.len() as int) == invalidate_prefix(s, list, target, n),
    decreases list.len() - n,
{
    if n < list.len() {
        lemma_invalidate_err_stays(s, list, target, n + 1);
    }
}

/// A mapping inserted at an address is found there, and every page it reaches lists the
/// address.
pub proof fn law_insert_lists_pages(s: Space, addr: u32, m: Mapping, k: int)
    requires
        0 <= k < page_count(addr, m.length),
    ensures
        s.0.insert(word_of(addr), m)[word_of(addr)] == m,
        deps_list(deps_insert_pages(s.1, addr, page_count(addr, m.length)), page_at(addr, k)).contains(addr),
{
    lemma_page_span(addr, m.length);
    lemma_inserted_stays(s.1, addr, k, page_count(addr, m.length));
}

/// Once listed for a page, an address stays listed as more pages are added.
proof fn lemma_inserted_stays(d: Deps, addr: u32, k: int, n: int)
    requires
        0 <= k < n,
        (addr >> 12u32) + n <= 0x10_0000,
    ensures
        deps_list(deps_insert_pages(d, addr, n), page_at(addr, k)).contains(addr),
    decreases n,
{
    let d1 = deps_insert_pages(d, addr, n - 1);
    let p = page_at(addr, n - 1);
    let q = page_at(addr, k);
    let l = set_insert(deps_list(d1, p), addr);
    assert(l.contains(addr)) by {
        if !deps_list(d1, p).contains(addr) {
            assert(l[l.len() - 1] == addr);
        }
    }
    if q != p {
        lemma_inserted_stays(d, addr, k, n - 1);
    }
}

/// A compiled block as the tables see it: its length in bytes. Its code and the links into
/// it stay with the recompiler.
#[derive(Debug, Clone, Copy, PartialEq, Eq, Structural)]
pub struct StoredBlock {
    pub length: u32,
}

/// The compiled blocks: how long each is, and where they are mapped in the logical and the
/// physical address spaces.
#[derive(Debug)]
pub struct Blocks {
    storage: Vec<StoredBlock>,
    logical: MappingSpace,
    physical: MappingSpace,
}

impl Blocks {
    /// The stored blocks, by identifier.
    pub closed spec fn spec_storage(&self) -> Seq<StoredBlock> {
        self.storage@
    }

    /// The mappings and dependencies of an address space.
    pub closed spec fn space(&self, logical: bool) -> Space {
        if logical {
            self.logical.view()
        } else {
            self.physical.view()
        }
    }

    /// No blocks.
    pub fn new() -> (r: Blocks)
        ensures
            r.spec_storage() == Seq::<StoredBlock>::empty(),
            r.space(true) == (Map::<u32, Mapping>::empty(), Map::<u32, Seq<u32>>::empty()),
            r.space(false) == (Map::<u32, Mapping>::empty(), Map::<u32, Seq<u32>>::empty()),
    {
        Blocks { storage: Vec::new(), logical: MappingSpace::new(), physical: MappingSpace::new() }
    }

    /// Stores a block of `length` bytes and maps it at `addr` in the given space.
    pub fn insert(&mut self, logical: bool, addr: u32, length: u32) -> (id: BlockId)
        ensures
            id == BlockId(old(self).spec_storage().len() as usize),
            final(self).spec_storage() == old(self).spec_storage().push((StoredBlock { length })),
            final(self).space(logical).0 == old(self).space(logical).0.insert(word_of(addr), Mapping { id, length }),
            final(self).space(logical).1 == deps_insert_pages(old(self).space(logical).1, addr, page_count(addr, length)),
            final(self).space(!logical) == old(self).space(!logical),
            final(self).get_mapping_spec(logical, addr) == Some(Mapping { id, length }),
            id.0 < final(self).spec_storage().len(),
            final(self).spec_storage()[id.0 as int] == (StoredBlock { length }),
    {
        let id = BlockId(self.storage.len());
        self.storage.push(StoredBlock { length });
        let mapping = Mapping { id, length };
        if logical {
            self.logical.insert_mapping(addr, mapping);
        } else {
            self.physical.insert_mapping(addr, mapping);
        }
        id
    }

    /// The mapping at `addr` in the given space.
    pub fn get_mapping(&self, logical: bool, addr: u32) -> (r: Option<Mapping>)
        ensures
            r == (if self.space(logical).0.contains_key(word_of(addr)) {
                Some(self.space(logical).0[word_of(addr)])
            } else {
                None
            }),
    {
        if logical {
            self.logical.get_mapping(addr)
        } else {
            self.physical.get_mapping(addr)
        }
    }

    /// The block mapped at `addr` in the given space, if it is stored.
    pub fn get(&self, logical: bool, addr: u32) -> (r: Option<StoredBlock>)
        ensures
            r == (match self.get_mapping_spec(logical, addr) {
                Some(m) => if m.id.0 < self.spec_storage().len() { Some(self.spec_storage()[m.id.0 as int]) } else { None },
                None => None,
            }),
    {
        match self.get_mapping(logical, addr) {
            Some(m) => if m.id.0 < self.storage.len() { Some(self.storage[m.id.0]) } else { None },
            None => None,
        }
    }

    /// The mapping at `addr` in the given space.
    pub open spec fn get_mapping_spec(&self, logical: bool, addr: u32) -> Option<Mapping> {
        if self.space(logical).0.contains_key(word_of(addr)) {
            Some(self.space(logical).0[word_of(addr)])
        } else {
            None
        }
    }

    /// Invalidates the mappings that contain `target` in the given space, giving the blocks
    /// whose links must be undone. Every block listed as depending on the page of `target`
    /// must be mapped.
    pub fn invalidate(&mut self, logical: bool, target: u32) -> (r: Vec<BlockId>)
        requires
            spec_invalidate(old(self).space(logical), target) is Ok,
        ensures
            spec_invalidate(old(self).space(logical), target) == Ok::<(Space, Seq<BlockId>), u32>((final(self).space(logical), r@)),
            final(self).space(!logical) == old(self).space(!logical),
            final(self).spec_storage() == old(self).spec_storage(),
    {
        if logical {
            self.logical.invalidate(target)
        } else {
            self.physical.invalidate(target)
        }
    }

    /// Forgets every mapping and dependency; stored blocks stay.
    pub fn clear(&mut self)
        ensures
            final(self).spec_storage() == old(self).spec_storage(),
            final(self).space(true) == (Map::<u32, Mapping>::empty(), Map::<u32, Seq<u32>>::empty()),
            final(self).space(false) == (Map::<u32, Mapping>::empty(), Map::<u32, Seq<u32>>::empty()),
    {
        self.logical = MappingSpace::new();
        self.physical = MappingSpace::new();
    }
}

} // verus!

verus! {

/// `s` with `m` mapped at `addr` and `addr` listed for the pages the block steps over, as
/// inserting a mapping leaves it.
pub open spec fn inserted(s: Space, addr: u32, m: Mapping) -> Space {
    (s.0.insert(word_of(addr), m), deps_insert_pages(s.1, addr, page_count(addr, m.length)))
}

/// While invalidating, the mapping at the word of `addr` stays `m` until it is removed, and
/// then its block is among those given; once the list is past `addr`, it is among them.
proof fn lemma_invalidate_finds(s: Space, list: Seq<u32>, target: u32, addr: u32, m: Mapping, idx: int, n: int)
    requires
        0 <= idx < list.len(),
        list[idx] == addr,
        0 <= n <= list.len(),
        s.0.contains_key(word_of(addr)),
        s.0[word_of(addr)] == m,
        covers(addr, m.length, target),
    ensures
        invalidate_prefix(s, list, target, n) matches Ok((sn, ids)) ==> {
            &&& (sn.0.contains_key(word_of(addr)) && sn.0[word_of(addr)] == m) || ids.contains(m.id)
            &&& n > idx ==> ids.contains(m.id)
        },
    decreases n,
{
    if n > 0 {
        lemma_invalidate_finds(s, list, target, addr, m, idx, n - 1);
        match invalidate_prefix(s, list, target, n - 1) {
            Err(_) => {},
            Ok((s1, ids)) => {
                let dep = list[n - 1];
                match remove_if_covers(s1, dep, target) {
                    Err(_) => {},
                    Ok((s2, None)) => {},
                    Ok((s2, Some(mm))) => {
                        let pushed = ids.push(mm.id);
                        if ids.contains(m.id) {
                            let k = choose|k: int| 0 <= k < ids.len() && ids[k] == m.id;
                            assert(pushed[k] == m.id);
                        }
                        if word_of(dep) == word_of(addr) && s1.0.contains_key(word_of(addr)) && s1.0[word_of(addr)] == m {
                            assert(pushed[ids.len() as int] == m.id);
                        }
                    },
                }
            },
        }
    }
}

/// A write inside a block invalidates the block: once its mapping is inserted, invalidating
/// any address from its start to its end gives the block back, wherever the invalidation
/// succeeds.
pub proof fn law_write_in_block_invalidates(s: Space, addr: u32, m: Mapping, target: u32)
    requires
        addr <= target,
        target <= addr + m.length <= u32::MAX,
        spec_invalidate(inserted(s, addr, m), target) is Ok,
    ensures
        spec_invalidate(inserted(s, addr, m), target)->Ok_0.1.contains(m.id),
{
    let s1 = inserted(s, addr, m);
    let list = deps_list(s1.1, target >> 12u32);
    let end = (addr + m.length) as u32;
    lemma_page_monotone(addr, target);
    lemma_page_monotone(target, end);
    lemma_page_span(addr, m.length);
    let k = (target >> 12u32) - (addr >> 12u32);
    assert(page_at(addr, k) == target >> 12u32);
    lemma_inserted_stays(s.1, addr, k, page_count(addr, m.length));
    assert(list.contains(addr));
    let idx = choose|i: int| 0 <= i < list.len() && list[i] == addr;
    assert((addr as int + m.length) % 0x1_0000_0000 == addr + m.length);
    lemma_invalidate_finds(s1, list, target, addr, m, idx, list.len() as int);
}

} // verus!

verus! {

/// While invalidating, the mappings that stay are the original ones, and a listed address
/// whose mapping covers the target has lost it once the walk is past it.
proof fn lemma_invalidate_prefix_removes(s: Space, list: Seq<u32>, target: u32, n: int)
    requires
        0 <= n <= list.len(),
    ensures
        invalidate_prefix(s, list, target, n) matches Ok((sn, ids)) ==> {
            &&& forall|w: u32| #[trigger] sn.0.contains_key(w) ==> s.0.contains_key(w) && sn.0[w] == s.0[w]
            &&& forall|i: int|
                0 <= i < n && s.0.contains_key(word_of(list[i])) && covers(list[i], s.0[word_of(list[i])].length, target)
                    ==> !sn.0.contains_key(#[trigger] word_of(list[i]))
        },
    decreases n,
{
    if n > 0 {
        lemma_invalidate_prefix_removes(s, list, target, n - 1);
        match invalidate_prefix(s, list, target, n - 1) {
            Err(_) => {},
            Ok((s1, ids)) => {
                let dep = list[n - 1];
                match remove_if_covers(s1, dep, target) {
                    Err(_) => {},
                    Ok((s2, None)) => {},
                    Ok((s2, Some(m))) => {
                        assert(s2.0 == s1.0.remove(word_of(dep)));
                    },
                }
            },
        }
    }
}

/// Invalidating a target removes the mapping of every address listed for the target's page
/// whose block covers the target, and keeps every other mapping as it was: the mappings after
/// are a part of those before.
pub proof fn law_invalidate_removes_covering(s: Space, target: u32, a: u32)
    requires
        spec_invalidate(s, target) is Ok,
        deps_list(s.1, target >> 12u32).contains(a),
        s.0.contains_key(word_of(a)),
        covers(a, s.0[word_of(a)].length, target),
    ensures
        !spec_invalidate(s, target)->Ok_0.0.0.contains_key(word_of(a)),
        forall|w: u32| #[trigger] spec_invalidate(s, target)->Ok_0.0.0.contains_key(w)
            ==> s.0.contains_key(w) && spec_invalidate(s, target)->Ok_0.0.0[w] == s.0[w],
{
    let list = deps_list(s.1, target >> 12u32);
    lemma_invalidate_prefix_removes(s, list, target, list.len() as int);
    let i = choose|i: int| 0 <= i < list.len() && list[i] == a;
    assert(list[i] == a);
}

} // verus!
